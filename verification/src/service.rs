//! The description of Paneru as a launchd service: where its launch agent,
//! app bundle and logs live, and the property lists written for them.

use vstd::prelude::*;
use crate::text::{chars_of, contains_text, decimal, occurs_at, push_decimal, str_equal};

verus! {

/// The bundle identifier of the Paneru service.
pub const ID: &'static str = "com.github.karinushka.paneru";

/// A launchd service as the `launchctl` crate describes it: its name, the
/// user id it runs for, its launchd domain and service targets, and the
/// paths of its property list and log files.
#[derive(Debug)]
pub struct LaunchAgent {
    pub name: String,
    pub uid: String,
    pub domain_target: String,
    pub service_target: String,
    pub plist_path: String,
    pub error_log_path: String,
    pub out_log_path: String,
}

/// Calls `launchctl::Service::builder()` with the name, user id and
/// property-list path given, leaving every other field to the builder's
/// defaults, and moves the fields of the built service into a
/// `LaunchAgent`. The contract states those defaults as the crate's source
/// writes them: domain `gui/<uid>`, service `<domain>/<name>`, and logs
/// `/tmp/<name>_<uid>.err.log` and `/tmp/<name>_<uid>.out.log`.
#[verifier::external_body]
fn build_launch_agent(name: &str, uid: &str, plist_path: &str) -> (agent: LaunchAgent)
    ensures
        agent.name@ == name@,
        agent.uid@ == uid@,
        agent.domain_target@ == "gui/"@ + uid@,
        agent.service_target@ == "gui/"@ + uid@ + "/"@ + name@,
        agent.plist_path@ == plist_path@,
        agent.error_log_path@ == "/tmp/"@ + name@ + "_"@ + uid@ + ".err.log"@,
        agent.out_log_path@ == "/tmp/"@ + name@ + "_"@ + uid@ + ".out.log"@,
{
    let service = launchctl::Service::builder().name(name).uid(uid).plist_path(plist_path).build();
    LaunchAgent {
        name: service.name,
        uid: service.uid,
        domain_target: service.domain_target,
        service_target: service.service_target,
        plist_path: service.plist_path,
        error_log_path: service.error_log_path,
        out_log_path: service.out_log_path,
    }
}

/// Why a `Service` could not be described.
#[derive(Debug, PartialEq, Eq)]
pub enum ServiceError {
    /// The user's home directory is unknown.
    HomeDirectoryNotFound,
    /// The path of the running executable is unknown.
    ExecutablePathNotFound,
}

/// Paneru as a launchd service: the launch agent, the path of the Paneru
/// executable that installs it, and the user's home directory. Paths are
/// kept as text.
#[derive(Debug)]
pub struct Service {
    /// The launch agent.
    raw: LaunchAgent,
    /// The absolute path to the `paneru` executable.
    bin_path: String,
    /// The user's home directory.
    home_dir: String,
}

/// The launch agent property list of service `name` in home directory `home`.
pub open spec fn launch_agent_plist_path(home: Seq<char>, name: Seq<char>) -> Seq<char> {
    home + "/Library/LaunchAgents/"@ + name + ".plist"@
}

/// `base` joined with the relative path `rel`, as `Path::join` joins them:
/// a separator is added unless `base` is empty or already ends with one.
pub open spec fn joined(base: Seq<char>, rel: Seq<char>) -> Seq<char> {
    if base.len() == 0 || base.last() == '/' {
        base + rel
    } else {
        base + seq!['/'] + rel
    }
}

/// Joins the relative path `rel` to `base`.
fn join_path(base: &str, rel: &str) -> (r: String)
    ensures
        r@ == joined(base@, rel@),
{
    let chars = chars_of(base);
    let mut r = String::from_str(base);
    if chars.len() > 0 && chars[chars.len() - 1] != '/' {
        proof {
            reveal_strlit("/");
        }
        r.append("/");
    }
    r.append(rel);
    r
}

/// The text of the app bundle's `Info.plist` before the bundle identifier.
pub const INFO_PLIST_HEAD: &'static str = "<?xml version=\"1.0\" encoding=\"UTF-8\"?>
<!DOCTYPE plist PUBLIC \"-//Apple//DTD PLIST 1.0//EN\" \"http://www.apple.com/DTDs/PropertyList-1.0.dtd\">
<plist version=\"1.0\">
  <dict>
    <key>CFBundleExecutable</key>
    <string>paneru</string>
    <key>CFBundleIdentifier</key>
    <string>";

/// The text between the bundle identifier and the short version string.
pub const INFO_PLIST_BEFORE_SHORT_VERSION: &'static str = "</string>
    <key>CFBundleName</key>
    <string>Paneru</string>
    <key>CFBundleDisplayName</key>
    <string>Paneru</string>
    <key>CFBundlePackageType</key>
    <string>APPL</string>
    <key>CFBundleShortVersionString</key>
    <string>";

/// The text between the short version string and the bundle version.
pub const INFO_PLIST_BEFORE_VERSION: &'static str = "</string>
    <key>CFBundleVersion</key>
    <string>";

/// The text of the `Info.plist` after the bundle version.
pub const INFO_PLIST_TAIL: &'static str = "</string>
    <key>LSUIElement</key>
    <true />
    <key>NSHumanReadableCopyright</key>
    <string>Copyright (c) 2025 Karinushka@github. All rights reserved.</string>
  </dict>
</plist>
";

/// The `Info.plist` of the app bundle of service `name` at `version`.
pub open spec fn info_plist(name: Seq<char>, version: Seq<char>) -> Seq<char> {
    INFO_PLIST_HEAD@ + name + INFO_PLIST_BEFORE_SHORT_VERSION@ + version
        + INFO_PLIST_BEFORE_VERSION@ + version + INFO_PLIST_TAIL@
}

/// The launch agent property list before the service name.
pub const LAUNCHD_HEAD: &'static str = "<?xml version=\"1.0\" encoding=\"UTF-8\"?>
<!DOCTYPE plist PUBLIC \"-//Apple//DTD PLIST 1.0//EN\" \"http://www.apple.com/DTDs/PropertyList-1.0.dtd\">
<plist version=\"1.0\">
<dict>
    <key>Label</key>
    <string>";

/// The text between the service name and the opening of the executable's
/// string.
pub const LAUNCHD_BEFORE_PROGRAM: &'static str = "</string>
    <key>ProgramArguments</key>
    <array>
        ";

/// The opening of a property-list string.
pub const STRING_OPEN: &'static str = "<string>";

/// The closing of a property-list string.
pub const STRING_CLOSE: &'static str = "</string>";

/// The text between the executable's string and `XDG_CONFIG_HOME`.
pub const LAUNCHD_BEFORE_CONFIG_HOME: &'static str = "
        <string>launch</string>
    </array>
    <key>EnvironmentVariables</key>
    <dict>
        <key>XDG_CONFIG_HOME</key>
        <string>";

/// The text between `XDG_CONFIG_HOME` and the standard output log path.
pub const LAUNCHD_BEFORE_OUT_LOG: &'static str = "</string>
    </dict>
    <key>RunAtLoad</key>
    <true/>
    <key>KeepAlive</key>
    <dict>
        <key>SuccessfulExit</key>
        <false/>
    </dict>
    <key>ProcessType</key>
    <string>Interactive</string>
    <key>StandardOutPath</key>
    <string>";

/// The text between the standard output and standard error log paths.
pub const LAUNCHD_BEFORE_ERROR_LOG: &'static str = "</string>
    <key>StandardErrorPath</key>
    <string>";

/// The launch agent property list after the standard error log path.
pub const LAUNCHD_TAIL: &'static str = "</string>
</dict>
</plist>
";

/// The launch agent property list of a service: its label, the executable
/// it launches, the configuration home it runs with and its log paths.
pub open spec fn launchd_plist_text(
    name: Seq<char>,
    executable: Seq<char>,
    config_home: Seq<char>,
    out_log: Seq<char>,
    error_log: Seq<char>,
) -> Seq<char> {
    LAUNCHD_HEAD@ + name + LAUNCHD_BEFORE_PROGRAM@ + STRING_OPEN@ + executable + STRING_CLOSE@
        + LAUNCHD_BEFORE_CONFIG_HOME@ + config_home + LAUNCHD_BEFORE_OUT_LOG@ + out_log
        + LAUNCHD_BEFORE_ERROR_LOG@ + error_log + LAUNCHD_TAIL@
}

/// The configuration home the service runs with: `XDG_CONFIG_HOME` when it
/// is set, otherwise `.config` in the home directory.
pub open spec fn config_home(home: Seq<char>, xdg_config_home: Option<Seq<char>>) -> Seq<char> {
    match xdg_config_home {
        Some(dir) => dir,
        None => home + "/.config"@,
    }
}

impl Service {
    /// The home directory of the service's user.
    pub closed spec fn home(&self) -> Seq<char> {
        self.home_dir@
    }

    /// The path of the executable that installs the service.
    pub closed spec fn bin(&self) -> Seq<char> {
        self.bin_path@
    }

    /// The launch agent.
    pub closed spec fn agent(&self) -> LaunchAgent {
        self.raw
    }

    /// Describes service `name` for the user `uid`, whose home directory
    /// and running executable are given; fails when either is unknown, the
    /// home directory first.
    pub fn try_new(name: &str, home_dir: Option<String>, bin_path: Option<String>, uid: u32) -> (r: Result<Service, ServiceError>)
        ensures
            match home_dir {
                None => r == Err::<Service, ServiceError>(ServiceError::HomeDirectoryNotFound),
                Some(home) => match bin_path {
                    None => r == Err::<Service, ServiceError>(ServiceError::ExecutablePathNotFound),
                    Some(bin) => r matches Ok(service) && {
                        &&& service.home() == home@
                        &&& service.bin() == bin@
                        &&& service.agent().name@ == name@
                        &&& service.agent().uid@ == decimal(uid as nat)
                        &&& service.agent().plist_path@ == launch_agent_plist_path(home@, name@)
                        &&& service.agent().domain_target@ == "gui/"@ + decimal(uid as nat)
                        &&& service.agent().service_target@ == "gui/"@ + decimal(uid as nat) + "/"@ + name@
                        &&& service.agent().error_log_path@ == "/tmp/"@ + name@ + "_"@ + decimal(uid as nat) + ".err.log"@
                        &&& service.agent().out_log_path@ == "/tmp/"@ + name@ + "_"@ + decimal(uid as nat) + ".out.log"@
                    },
                },
            },
    {
        let home = match home_dir {
            Some(home) => home,
            None => return Err(ServiceError::HomeDirectoryNotFound),
        };
        let bin = match bin_path {
            Some(bin) => bin,
            None => return Err(ServiceError::ExecutablePathNotFound),
        };
        let mut uid_text = String::new();
        push_decimal(&mut uid_text, uid as u64);
        let mut plist_path = String::from_str(home.as_str());
        plist_path.append("/Library/LaunchAgents/");
        plist_path.append(name);
        plist_path.append(".plist");
        let raw = build_launch_agent(name, uid_text.as_str(), plist_path.as_str());
        proof {
            assert(raw.uid@ =~= decimal(uid as nat));
        }
        Ok(Service { raw, bin_path: bin, home_dir: home })
    }

    /// The launch agent.
    pub fn raw(&self) -> (r: &LaunchAgent)
        ensures
            *r == self.agent(),
    {
        &self.raw
    }

    /// The absolute path to the `paneru` executable.
    pub fn bin_path(&self) -> (r: &str)
        ensures
            r@ == self.bin(),
    {
        self.bin_path.as_str()
    }

    /// The user's home directory.
    pub fn home_dir(&self) -> (r: &str)
        ensures
            r@ == self.home(),
    {
        self.home_dir.as_str()
    }

    /// The path of the launch agent's property list.
    pub fn plist_path(&self) -> (r: &str)
        ensures
            r@ == self.agent().plist_path@,
    {
        self.raw.plist_path.as_str()
    }

    /// The stable app bundle that Paneru runs from as a service.
    pub fn app_bundle_path(&self) -> (r: String)
        ensures
            r@ == joined(self.home(), "Applications/Paneru.app"@),
    {
        join_path(self.home_dir.as_str(), "Applications/Paneru.app")
    }

    /// The executable inside the stable app bundle.
    pub fn app_executable_path(&self) -> (r: String)
        ensures
            r@ == joined(joined(self.home(), "Applications/Paneru.app"@), "Contents/MacOS/paneru"@),
    {
        let bundle = self.app_bundle_path();
        join_path(bundle.as_str(), "Contents/MacOS/paneru")
    }
}


impl Service {
    /// The `Info.plist` written into the app bundle, for Paneru at `version`.
    pub fn app_info_plist(&self, version: &str) -> (r: String)
        ensures
            r@ == info_plist(self.agent().name@, version@),
    {
        let mut text = String::from_str(INFO_PLIST_HEAD);
        text.append(self.raw.name.as_str());
        text.append(INFO_PLIST_BEFORE_SHORT_VERSION);
        text.append(version);
        text.append(INFO_PLIST_BEFORE_VERSION);
        text.append(version);
        text.append(INFO_PLIST_TAIL);
        text
    }

    /// The launch agent property list of this service. It launches the
    /// executable inside the stable app bundle, with `XDG_CONFIG_HOME` set
    /// to `xdg_config_home` when given and to `.config` in the home
    /// directory otherwise.
    pub fn launchd_plist(&self, xdg_config_home: Option<String>) -> (r: String)
        ensures
            r@ == launchd_plist_text(
                self.agent().name@,
                joined(joined(self.home(), "Applications/Paneru.app"@), "Contents/MacOS/paneru"@),
                config_home(self.home(), match xdg_config_home { Some(dir) => Some(dir@), None => None }),
                self.agent().out_log_path@,
                self.agent().error_log_path@,
            ),
            contains_text(r@, "<key>StandardOutPath</key>\n    <string>"@ + self.agent().out_log_path@ + "</string>"@),
            contains_text(r@, "<key>StandardErrorPath</key>\n    <string>"@ + self.agent().error_log_path@
                + "</string>"@),
    {
        let config = match xdg_config_home {
            Some(dir) => dir,
            None => {
                let mut dir = String::from_str(self.home_dir.as_str());
                dir.append("/.config");
                dir
            },
        };
        let executable = self.app_executable_path();
        let mut text = String::from_str(LAUNCHD_HEAD);
        text.append(self.raw.name.as_str());
        text.append(LAUNCHD_BEFORE_PROGRAM);
        text.append(STRING_OPEN);
        text.append(executable.as_str());
        text.append(STRING_CLOSE);
        text.append(LAUNCHD_BEFORE_CONFIG_HOME);
        text.append(config.as_str());
        text.append(LAUNCHD_BEFORE_OUT_LOG);
        text.append(self.raw.out_log_path.as_str());
        text.append(LAUNCHD_BEFORE_ERROR_LOG);
        text.append(self.raw.error_log_path.as_str());
        text.append(LAUNCHD_TAIL);
        proof {
            law_launchd_plist_log_paths(
                self.agent().name@,
                executable@,
                config@,
                self.agent().out_log_path@,
                self.agent().error_log_path@,
            );
        }
        text
    }
}


/// The launch agent property list names the executable it launches as a
/// string of its own: `<string>` + executable + `</string>` occurs in it.
pub proof fn law_launchd_plist_names_executable(
    name: Seq<char>,
    executable: Seq<char>,
    config_home: Seq<char>,
    out_log: Seq<char>,
    error_log: Seq<char>,
)
    ensures
        contains_text(
            launchd_plist_text(name, executable, config_home, out_log, error_log),
            STRING_OPEN@ + executable + STRING_CLOSE@,
        ),
{
    let text = launchd_plist_text(name, executable, config_home, out_log, error_log);
    let before = LAUNCHD_HEAD@ + name + LAUNCHD_BEFORE_PROGRAM@;
    let needle = STRING_OPEN@ + executable + STRING_CLOSE@;
    let after = LAUNCHD_BEFORE_CONFIG_HOME@ + config_home + LAUNCHD_BEFORE_OUT_LOG@ + out_log
        + LAUNCHD_BEFORE_ERROR_LOG@ + error_log + LAUNCHD_TAIL@;
    assert(text =~= before + needle + after);
    assert((before + needle + after).subrange(before.len() as int, (before.len() + needle.len()) as int) =~= needle);
    assert(occurs_at(text, needle, before.len() as int));
}

/// The launch agent property list logs standard output to the agent's
/// standard output log path and standard error to its standard error log
/// path: each path is the string that follows the key it belongs to.
pub proof fn law_launchd_plist_log_paths(
    name: Seq<char>,
    executable: Seq<char>,
    config_home: Seq<char>,
    out_log: Seq<char>,
    error_log: Seq<char>,
)
    ensures
        contains_text(
            launchd_plist_text(name, executable, config_home, out_log, error_log),
            "<key>StandardOutPath</key>\n    <string>"@ + out_log + "</string>"@,
        ),
        contains_text(
            launchd_plist_text(name, executable, config_home, out_log, error_log),
            "<key>StandardErrorPath</key>\n    <string>"@ + error_log + "</string>"@,
        ),
{
    reveal_strlit("<key>StandardOutPath</key>\n    <string>");
    reveal_strlit("<key>StandardErrorPath</key>\n    <string>");
    reveal_strlit("</string>");
    reveal_strlit("</string>
    </dict>
    <key>RunAtLoad</key>
    <true/>
    <key>KeepAlive</key>
    <dict>
        <key>SuccessfulExit</key>
        <false/>
    </dict>
    <key>ProcessType</key>
    <string>Interactive</string>
    <key>StandardOutPath</key>
    <string>");
    reveal_strlit("</string>
    <key>StandardErrorPath</key>
    <string>");
    reveal_strlit("</string>
</dict>
</plist>
");
    let text = launchd_plist_text(name, executable, config_home, out_log, error_log);
    let head = LAUNCHD_HEAD@ + name + LAUNCHD_BEFORE_PROGRAM@ + STRING_OPEN@ + executable + STRING_CLOSE@
        + LAUNCHD_BEFORE_CONFIG_HOME@ + config_home;
    let out_key = "<key>StandardOutPath</key>\n    <string>"@;
    let error_key = "<key>StandardErrorPath</key>\n    <string>"@;
    let close = "</string>"@;
    let before_out = LAUNCHD_BEFORE_OUT_LOG@;
    let before_error = LAUNCHD_BEFORE_ERROR_LOG@;
    let tail = LAUNCHD_TAIL@;
    assert(before_out.subrange(before_out.len() - out_key.len(), before_out.len() as int) =~= out_key);
    assert(before_error.subrange(0, close.len() as int) =~= close);
    assert(before_error.subrange(close.len() + 5int, before_error.len() as int) =~= error_key);
    assert(tail.subrange(0, close.len() as int) =~= close);

    let out_needle = out_key + out_log + close;
    let out_at: int = head.len() + before_out.len() - out_key.len();
    assert(text.subrange(out_at, out_at + out_needle.len()) =~= out_needle);
    assert(occurs_at(text, out_needle, out_at));

    let error_needle = error_key + error_log + close;
    let error_at: int = head.len() + before_out.len() + out_log.len() + close.len() + 5int;
    assert(text.subrange(error_at, error_at + error_needle.len()) =~= error_needle);
    assert(occurs_at(text, error_needle, error_at));
}

/// A path that could not be canonicalized, and whether it was because the
/// path does not exist.
pub struct PathError<E> {
    pub not_found: bool,
    pub error: E,
}

/// Whether two canonicalized paths are the same path: equal when both were
/// canonicalized, different when the second does not exist, and the error
/// of the first path that failed otherwise.
pub fn paths_equal<E>(a: Result<String, PathError<E>>, b: Result<String, PathError<E>>) -> (r: Result<bool, E>)
    ensures
        match (a, b) {
            (Ok(a), Ok(b)) => r == Ok::<bool, E>(a@ == b@),
            (Err(e), _) => r == Err::<bool, E>(e.error),
            (Ok(_), Err(e)) => if e.not_found {
                r == Ok::<bool, E>(false)
            } else {
                r == Err::<bool, E>(e.error)
            },
        },
{
    match a {
        Err(e) => Err(e.error),
        Ok(a) => match b {
            Ok(b) => Ok(str_equal(a.as_str(), b.as_str())),
            Err(e) => {
                if e.not_found {
                    Ok(false)
                } else {
                    Err(e.error)
                }
            },
        },
    }
}

/// Whether the installed launch agent is already the one to write: the
/// property list could be read (it is installed) and holds exactly the
/// desired text.
pub fn launch_agent_up_to_date(installed: Option<&str>, desired: &str) -> (r: bool)
    ensures
        r == match installed {
            Some(text) => text@ == desired@,
            None => false,
        },
{
    match installed {
        Some(text) => str_equal(text, desired),
        None => false,
    }
}

} // verus!
