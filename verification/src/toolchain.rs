//! The compilers that the `eq` tool knows, the package managers that install
//! them, and the decisions the tool takes between its probes of the machine.

use vstd::prelude::*;

use crate::detector::{lowercase, on_path, unicode_lowercase, which_path};
use crate::text::{
    chars_of, contains_seq, contains_str, eq_str, find_char, find_char_in, lemma_find_char, join, join_chars,
    ends_with, lines, lines_of, push_str, slice_chars, starts_with, starts_with_str, string_from, string_of,
    string_views, trim, trim_chars, views,
};

verus! {

broadcast use vstd::string::group_string_axioms;

/// Per-package-manager package names; an empty name means "not available
/// through this manager".
#[derive(Clone, Debug)]
pub struct Install {
    pub brew: String,
    pub apt: String,
    pub dnf: String,
    pub pacman: String,
    pub winget: String,
    pub scoop: String,
    pub scoop_bucket: String,
    pub manual: String,
}

/// A compiler the tool can look for and install.
#[derive(Clone, Debug)]
pub struct Compiler {
    pub id: String,
    pub lang: String,
    pub bin: String,
    pub extra_paths: Vec<String>,
    pub version_args: Vec<String>,
    pub install: Install,
    pub supported: bool,
}

pub struct InstallModel {
    pub brew: Seq<char>,
    pub apt: Seq<char>,
    pub dnf: Seq<char>,
    pub pacman: Seq<char>,
    pub winget: Seq<char>,
    pub scoop: Seq<char>,
    pub scoop_bucket: Seq<char>,
    pub manual: Seq<char>,
}

pub struct CompilerModel {
    pub id: Seq<char>,
    pub lang: Seq<char>,
    pub bin: Seq<char>,
    pub extra_paths: Seq<Seq<char>>,
    pub version_args: Seq<Seq<char>>,
    pub install: InstallModel,
    pub supported: bool,
}

impl View for Install {
    type V = InstallModel;

    open spec fn view(&self) -> InstallModel {
        InstallModel {
            brew: self.brew@,
            apt: self.apt@,
            dnf: self.dnf@,
            pacman: self.pacman@,
            winget: self.winget@,
            scoop: self.scoop@,
            scoop_bucket: self.scoop_bucket@,
            manual: self.manual@,
        }
    }
}

impl View for Compiler {
    type V = CompilerModel;

    open spec fn view(&self) -> CompilerModel {
        CompilerModel {
            id: self.id@,
            lang: self.lang@,
            bin: self.bin@,
            extra_paths: string_views(self.extra_paths@),
            version_args: string_views(self.version_args@),
            install: self.install@,
            supported: self.supported,
        }
    }
}

pub open spec fn compiler_views(v: Seq<Compiler>) -> Seq<CompilerModel> {
    v.map_values(|c: Compiler| c@)
}

pub open spec fn str_views(v: Seq<&str>) -> Seq<Seq<char>> {
    v.map_values(|s: &str| s@)
}

pub open spec fn install_model(
    brew: Seq<char>,
    apt: Seq<char>,
    dnf: Seq<char>,
    pacman: Seq<char>,
    winget: Seq<char>,
    scoop: Seq<char>,
    scoop_bucket: Seq<char>,
    manual: Seq<char>,
) -> InstallModel {
    InstallModel { brew, apt, dnf, pacman, winget, scoop, scoop_bucket, manual }
}

/// The catalogue of compilers, in the order the tool lists them; `linux`
/// says whether the tool runs on Linux (Hare is supported there only).
pub open spec fn spec_catalog(linux: bool) -> Seq<CompilerModel> {
    seq![
        CompilerModel {
            id: "zig"@,
            lang: "Zig"@,
            bin: "zig"@,
            extra_paths: seq!["/usr/local/sbin"@, "/usr/local/bin"@, "/home/linuxbrew/.linuxbrew/bin"@, "/opt/homebrew/bin"@],
            version_args: seq!["version"@],
            install: install_model("zig"@, "zig"@, "zig"@, "zig"@, "zig.zig"@, "zig"@, ""@, "https://ziglang.org/download/"@),
            supported: true,
        },
        CompilerModel {
            id: "nim"@,
            lang: "Nim"@,
            bin: "nim"@,
            extra_paths: seq!["/home/linuxbrew/.linuxbrew/bin"@, "/opt/homebrew/bin"@, "/usr/local/bin"@],
            version_args: seq!["--version"@],
            install: install_model("nim"@, "nim"@, "nim"@, "nim"@, "nim.nim"@, "nim"@, ""@, "https://nim-lang.org/install.html"@),
            supported: true,
        },
        CompilerModel {
            id: "v"@,
            lang: "V"@,
            bin: "v"@,
            extra_paths: seq!["/home/linuxbrew/.linuxbrew/bin"@, "/opt/homebrew/bin"@, "/usr/local/bin"@],
            version_args: seq!["version"@],
            install: install_model("vlang"@, ""@, ""@, "vlang"@, ""@, "v"@, ""@, "https://vlang.io/"@),
            supported: true,
        },
        CompilerModel {
            id: "d"@,
            lang: "D (ldc2)"@,
            bin: "ldc2"@,
            extra_paths: seq!["/home/linuxbrew/.linuxbrew/bin"@, "/opt/homebrew/bin"@, "/usr/local/bin"@],
            version_args: seq!["--version"@],
            install: install_model("ldc"@, "ldc"@, "ldc"@, "ldc"@, ""@, "ldc"@, ""@, "https://github.com/ldc-developers/ldc/releases"@),
            supported: true,
        },
        CompilerModel {
            id: "odin"@,
            lang: "Odin"@,
            bin: "odin"@,
            extra_paths: seq!["/usr/local/bin"@, "/usr/local/odin"@, "/home/linuxbrew/.linuxbrew/bin"@, "/opt/homebrew/bin"@],
            version_args: seq!["version"@],
            install: install_model("odin"@, ""@, ""@, "odin"@, "odin-lang.Odin"@, "odin"@, "versions"@, "https://odin-lang.org/docs/install/"@),
            supported: true,
        },
        CompilerModel {
            id: "hare"@,
            lang: "Hare"@,
            bin: "hare"@,
            extra_paths: seq!["/usr/local/bin"@, "/usr/bin"@],
            version_args: seq!["version"@],
            install: install_model(""@, "hare"@, "hare"@, "hare"@, ""@, ""@, ""@, "https://harelang.org/"@),
            supported: linux,
        },
        CompilerModel {
            id: "dotnet"@,
            lang: "C# (dotnet)"@,
            bin: "dotnet"@,
            extra_paths: seq!["/home/linuxbrew/.linuxbrew/bin"@, "/opt/homebrew/bin"@, "C:\\Program Files\\dotnet"@],
            version_args: seq!["--version"@],
            install: install_model("dotnet"@, "dotnet-sdk-9.0"@, "dotnet-sdk-9.0"@, "dotnet-sdk"@, "Microsoft.DotNet.SDK.9"@, "dotnet-sdk"@, ""@, "https://dot.net/"@),
            supported: true,
        },
    ]
}

/// Owned copies of a list of literals.
fn owned(items: &[&str]) -> (r: Vec<String>)
    ensures
        string_views(r@) == str_views(items@),
{
    let mut out: Vec<String> = Vec::new();
    for i in 0..items.len()
        invariant
            string_views(out@) == str_views(items@.take(i as int)),
    {
        out.push(string_from(items[i]));
        assert(str_views(items@.take(i + 1)) =~= str_views(items@.take(i as int)).push(items@[i as int]@));
        assert(string_views(out@) =~= string_views(out@.drop_last()).push(out@.last()@));
    }
    assert(items@.take(items@.len() as int) == items@);
    out
}

fn install(
    brew: &str,
    apt: &str,
    dnf: &str,
    pacman: &str,
    winget: &str,
    scoop: &str,
    scoop_bucket: &str,
    manual: &str,
) -> (r: Install)
    ensures
        r@ == install_model(brew@, apt@, dnf@, pacman@, winget@, scoop@, scoop_bucket@, manual@),
{
    Install {
        brew: string_from(brew),
        apt: string_from(apt),
        dnf: string_from(dnf),
        pacman: string_from(pacman),
        winget: string_from(winget),
        scoop: string_from(scoop),
        scoop_bucket: string_from(scoop_bucket),
        manual: string_from(manual),
    }
}

fn compiler(
    id: &str,
    lang: &str,
    bin: &str,
    extra_paths: &[&str],
    version_args: &[&str],
    install: Install,
    supported: bool,
) -> (r: Compiler)
    ensures
        r@ == (CompilerModel {
            id: id@,
            lang: lang@,
            bin: bin@,
            extra_paths: str_views(extra_paths@),
            version_args: str_views(version_args@),
            install: install@,
            supported,
        }),
{
    Compiler {
        id: string_from(id),
        lang: string_from(lang),
        bin: string_from(bin),
        extra_paths: owned(extra_paths),
        version_args: owned(version_args),
        install,
        supported,
    }
}

fn catalog_entry(k: usize, linux: bool) -> (r: Compiler)
    requires
        k < 7,
    ensures
        r@ == spec_catalog(linux)[k as int],
{
    let r = match k {
        0 => compiler(
            "zig",
            "Zig",
            "zig",
            &["/usr/local/sbin", "/usr/local/bin", "/home/linuxbrew/.linuxbrew/bin", "/opt/homebrew/bin"],
            &["version"],
            install("zig", "zig", "zig", "zig", "zig.zig", "zig", "", "https://ziglang.org/download/"),
            true,
        ),
        1 => compiler(
            "nim",
            "Nim",
            "nim",
            &["/home/linuxbrew/.linuxbrew/bin", "/opt/homebrew/bin", "/usr/local/bin"],
            &["--version"],
            install("nim", "nim", "nim", "nim", "nim.nim", "nim", "", "https://nim-lang.org/install.html"),
            true,
        ),
        2 => compiler(
            "v",
            "V",
            "v",
            &["/home/linuxbrew/.linuxbrew/bin", "/opt/homebrew/bin", "/usr/local/bin"],
            &["version"],
            install("vlang", "", "", "vlang", "", "v", "", "https://vlang.io/"),
            true,
        ),
        3 => compiler(
            "d",
            "D (ldc2)",
            "ldc2",
            &["/home/linuxbrew/.linuxbrew/bin", "/opt/homebrew/bin", "/usr/local/bin"],
            &["--version"],
            install("ldc", "ldc", "ldc", "ldc", "", "ldc", "", "https://github.com/ldc-developers/ldc/releases"),
            true,
        ),
        4 => compiler(
            "odin",
            "Odin",
            "odin",
            &["/usr/local/bin", "/usr/local/odin", "/home/linuxbrew/.linuxbrew/bin", "/opt/homebrew/bin"],
            &["version"],
            install("odin", "", "", "odin", "odin-lang.Odin", "odin", "versions", "https://odin-lang.org/docs/install/"),
            true,
        ),
        5 => compiler(
            "hare",
            "Hare",
            "hare",
            &["/usr/local/bin", "/usr/bin"],
            &["version"],
            install("", "hare", "hare", "hare", "", "", "", "https://harelang.org/"),
            linux,
        ),
        _ => compiler(
            "dotnet",
            "C# (dotnet)",
            "dotnet",
            &["/home/linuxbrew/.linuxbrew/bin", "/opt/homebrew/bin", "C:\\Program Files\\dotnet"],
            &["--version"],
            install("dotnet", "dotnet-sdk-9.0", "dotnet-sdk-9.0", "dotnet-sdk", "Microsoft.DotNet.SDK.9", "dotnet-sdk", "", "https://dot.net/"),
            true,
        ),
    };
    assert(r@.extra_paths =~= spec_catalog(linux)[k as int].extra_paths);
    assert(r@.version_args =~= spec_catalog(linux)[k as int].version_args);
    r
}

/// The catalogue of compilers (`linux`: whether the tool runs on Linux).
pub fn compilers(linux: bool) -> (r: Vec<Compiler>)
    ensures
        compiler_views(r@) == spec_catalog(linux),
{
    let ghost cat = spec_catalog(linux);
    assert(cat.len() == 7);
    let mut v: Vec<Compiler> = Vec::new();
    for k in 0..7
        invariant
            cat == spec_catalog(linux),
            cat.len() == 7,
            compiler_views(v@) == cat.take(k as int),
    {
        let ghost before = v@;
        let c = catalog_entry(k, linux);
        v.push(c);
        assert(v@ == before.push(c));
        assert(compiler_views(v@) =~= compiler_views(before).push(c@));
        assert(cat.take(k + 1) =~= cat.take(k as int).push(cat[k as int]));
    }
    assert(cat.take(7) =~= cat);
    v
}

/// Borrowed views of a list of owned strings.
fn refs(items: &[String]) -> (r: Vec<&str>)
    ensures
        str_views(r@) == string_views(items@),
{
    let mut out: Vec<&str> = Vec::new();
    for i in 0..items.len()
        invariant
            str_views(out@) == string_views(items@.take(i as int)),
    {
        out.push(items[i].as_str());
        assert(string_views(items@.take(i + 1)) =~= string_views(items@.take(i as int)).push(items@[i as int]@));
        assert(str_views(out@) =~= str_views(out@.drop_last()).push(out@.last()@));
    }
    assert(items@.take(items@.len() as int) == items@);
    out
}

/// The extra search directories of a compiler, as borrowed text.
pub fn extra_path_refs(paths: &[String]) -> (r: Vec<&str>)
    ensures
        str_views(r@) == string_views(paths@),
{
    refs(paths)
}

/// The version-query arguments of a compiler, as borrowed text.
pub fn version_arg_refs(args: &[String]) -> (r: Vec<&str>)
    ensures
        str_views(r@) == string_views(args@),
{
    refs(args)
}

/// The package managers that can install compilers.
#[derive(Clone, Copy, Debug, PartialEq, Eq, Structural)]
pub enum PkgMgr {
    Wax,
    Brew,
    Apt,
    Dnf,
    Pacman,
    Winget,
    Scoop,
}

pub open spec fn spec_cmd(m: PkgMgr) -> Seq<char> {
    match m {
        PkgMgr::Wax => "wax"@,
        PkgMgr::Brew => "brew"@,
        PkgMgr::Apt => "apt-get"@,
        PkgMgr::Dnf => "dnf"@,
        PkgMgr::Pacman => "pacman"@,
        PkgMgr::Winget => "winget"@,
        PkgMgr::Scoop => "scoop"@,
    }
}

/// The name of a compiler's package for a manager (empty: not available there).
pub open spec fn spec_pkg_name(m: PkgMgr, i: InstallModel) -> Seq<char> {
    match m {
        PkgMgr::Wax | PkgMgr::Brew => i.brew,
        PkgMgr::Apt => i.apt,
        PkgMgr::Dnf => i.dnf,
        PkgMgr::Pacman => i.pacman,
        PkgMgr::Winget => i.winget,
        PkgMgr::Scoop => i.scoop,
    }
}

/// The arguments that install package `pkg` with a manager.
pub open spec fn spec_install_args(m: PkgMgr, pkg: Seq<char>) -> Seq<Seq<char>> {
    match m {
        PkgMgr::Wax | PkgMgr::Brew => seq!["install"@, pkg],
        PkgMgr::Apt | PkgMgr::Dnf => seq!["install"@, "-y"@, pkg],
        PkgMgr::Pacman => seq!["-S"@, "--noconfirm"@, pkg],
        PkgMgr::Winget => seq!["install"@, "-e"@, "--id"@, pkg],
        PkgMgr::Scoop => seq!["install"@, pkg],
    }
}

pub open spec fn spec_needs_sudo(m: PkgMgr) -> bool {
    m is Apt || m is Dnf || m is Pacman
}

impl PkgMgr {
    /// The manager's command.
    pub fn cmd(self) -> (r: &'static str)
        ensures
            r@ == spec_cmd(self),
    {
        match self {
            PkgMgr::Wax => "wax",
            PkgMgr::Brew => "brew",
            PkgMgr::Apt => "apt-get",
            PkgMgr::Dnf => "dnf",
            PkgMgr::Pacman => "pacman",
            PkgMgr::Winget => "winget",
            PkgMgr::Scoop => "scoop",
        }
    }

    /// The package name of a compiler for this manager.
    pub fn pkg_name(self, install: &Install) -> (r: &str)
        ensures
            r@ == spec_pkg_name(self, install@),
    {
        match self {
            PkgMgr::Wax | PkgMgr::Brew => install.brew.as_str(),
            PkgMgr::Apt => install.apt.as_str(),
            PkgMgr::Dnf => install.dnf.as_str(),
            PkgMgr::Pacman => install.pacman.as_str(),
            PkgMgr::Winget => install.winget.as_str(),
            PkgMgr::Scoop => install.scoop.as_str(),
        }
    }

    /// The arguments that install `pkg`.
    pub fn install_args(self, pkg: &str) -> (r: Vec<String>)
        ensures
            string_views(r@) == spec_install_args(self, pkg@),
    {
        let mut v: Vec<String> = Vec::new();
        match self {
            PkgMgr::Wax | PkgMgr::Brew => {
                v.push(string_from("install"));
            },
            PkgMgr::Apt | PkgMgr::Dnf => {
                v.push(string_from("install"));
                v.push(string_from("-y"));
            },
            PkgMgr::Pacman => {
                v.push(string_from("-S"));
                v.push(string_from("--noconfirm"));
            },
            PkgMgr::Winget => {
                v.push(string_from("install"));
                v.push(string_from("-e"));
                v.push(string_from("--id"));
            },
            PkgMgr::Scoop => {
                v.push(string_from("install"));
            },
        }
        v.push(string_from(pkg));
        assert(string_views(v@) =~= spec_install_args(self, pkg@));
        v
    }

    /// Whether the manager runs under `sudo` on Linux.
    pub fn needs_sudo(self) -> (r: bool)
        ensures
            r == spec_needs_sudo(self),
    {
        match self {
            PkgMgr::Apt | PkgMgr::Dnf | PkgMgr::Pacman => true,
            _ => false,
        }
    }
}

/// The command line shown before an install runs: `sudo` first where the
/// manager needs it, then the manager's command and its arguments.
pub open spec fn spec_install_command_line(m: PkgMgr, args: Seq<Seq<char>>) -> Seq<char> {
    (if spec_needs_sudo(m) { "sudo "@ } else { ""@ }) + spec_cmd(m) + " "@ + join(args, " "@)
}

fn char_vecs(items: &[String]) -> (r: Vec<Vec<char>>)
    ensures
        views(r@) == string_views(items@),
{
    let mut out: Vec<Vec<char>> = Vec::new();
    for i in 0..items.len()
        invariant
            views(out@) == string_views(items@.take(i as int)),
    {
        out.push(chars_of(items[i].as_str()));
        assert(string_views(items@.take(i + 1)) =~= string_views(items@.take(i as int)).push(items@[i as int]@));
        assert(views(out@) =~= views(out@.drop_last()).push(out@.last()@));
    }
    assert(items@.take(items@.len() as int) == items@);
    out
}

/// The command line shown before an install runs.
pub fn install_command_line(mgr: PkgMgr, args: &[String]) -> (r: String)
    ensures
        r@ == spec_install_command_line(mgr, string_views(args@)),
{
    let mut out = if mgr.needs_sudo() { string_from("sudo ") } else { string_from("") };
    push_str(&mut out, mgr.cmd());
    push_str(&mut out, " ");
    let parts = char_vecs(args);
    let joined = join_chars(parts.as_slice(), " ");
    let tail = string_of(joined.as_slice());
    push_str(&mut out, tail.as_str());
    out
}

/// What the tool found of the machine before choosing package managers.
#[derive(Clone, Copy, Debug)]
pub struct ManagerProbes {
    /// wax is on `PATH` or in one of its install locations
    pub wax: bool,
    /// the tool runs on Windows
    pub windows: bool,
    /// the tool runs on Linux
    pub linux: bool,
    pub scoop: bool,
    pub winget: bool,
    /// brew is on `PATH` or in a Homebrew/Linuxbrew location
    pub brew: bool,
    pub apt: bool,
    pub dnf: bool,
    pub pacman: bool,
}

pub open spec fn present(found: bool, m: PkgMgr) -> Seq<PkgMgr> {
    if found { seq![m] } else { seq![] }
}

/// The usable managers, in order of preference: wax first everywhere; then
/// winget and scoop on Windows; elsewhere brew, and on Linux apt, dnf, pacman.
pub open spec fn spec_available_managers(p: ManagerProbes) -> Seq<PkgMgr> {
    if p.windows {
        present(p.wax, PkgMgr::Wax) + present(p.winget, PkgMgr::Winget) + present(p.scoop, PkgMgr::Scoop)
    } else if p.linux {
        present(p.wax, PkgMgr::Wax) + present(p.brew, PkgMgr::Brew) + present(p.apt, PkgMgr::Apt)
            + present(p.dnf, PkgMgr::Dnf) + present(p.pacman, PkgMgr::Pacman)
    } else {
        present(p.wax, PkgMgr::Wax) + present(p.brew, PkgMgr::Brew)
    }
}

/// Where a program is: where `PATH` has it (`found`, as `which` gives it), else the first of
/// the candidate locations that exists.
pub fn choose_binary(
    found: Option<std::path::PathBuf>,
    candidates: &Vec<std::path::PathBuf>,
    exists: &[bool],
) -> (r: Option<std::path::PathBuf>)
    requires
        exists@.len() == candidates@.len(),
    ensures
        found is Some ==> r == found,
        found is None ==> match r {
            Some(p) => exists|k: int|
                0 <= k < candidates@.len() && exists@[k] && candidates@[k] == p
                    && forall|j: int| 0 <= j < k ==> !exists@[j],
            None => forall|k: int| 0 <= k < exists@.len() ==> !exists@[k],
        },
{
    if found.is_some() {
        return found;
    }
    let mut k: usize = 0;
    while k < candidates.len()
        invariant
            exists@.len() == candidates@.len(),
            k <= candidates@.len(),
            found is None,
            forall|j: int| 0 <= j < k ==> !exists@[j],
        decreases candidates.len() - k,
    {
        if exists[k] {
            return Some(candidates[k].clone());
        }
        k = k + 1;
    }
    None
}

/// Where a program is: on `PATH`, else at the first existing candidate
/// location (`exists` says which of them exist).
pub fn find_bin(bin: &str, candidates: &Vec<std::path::PathBuf>, exists: &[bool]) -> (r: Option<std::path::PathBuf>)
    requires
        exists@.len() == candidates@.len(),
    ensures
        (exists|k: int| 0 <= k < exists@.len() && exists@[k]) ==> r is Some,
{
    choose_binary(which_path(bin), candidates, exists)
}

/// Probes `PATH` for the package managers; `wax_elsewhere` and
/// `brew_elsewhere` say whether wax or brew was found in one of their usual
/// install locations instead.
pub fn probe_managers(wax_elsewhere: bool, brew_elsewhere: bool, windows: bool, linux: bool) -> (r: ManagerProbes)
    ensures
        r.windows == windows,
        r.linux == linux,
        wax_elsewhere ==> r.wax,
        brew_elsewhere ==> r.brew,
{
    ManagerProbes {
        wax: on_path("wax") || wax_elsewhere,
        windows,
        linux,
        scoop: on_path("scoop"),
        winget: on_path("winget"),
        brew: on_path("brew") || brew_elsewhere,
        apt: on_path("apt-get"),
        dnf: on_path("dnf"),
        pacman: on_path("pacman"),
    }
}

/// The usable package managers, in order of preference.
pub fn available_managers(p: ManagerProbes) -> (r: Vec<PkgMgr>)
    ensures
        r@ == spec_available_managers(p),
{
    let mut v: Vec<PkgMgr> = Vec::new();
    if p.wax {
        v.push(PkgMgr::Wax);
    }
    if p.windows {
        if p.winget {
            v.push(PkgMgr::Winget);
        }
        if p.scoop {
            v.push(PkgMgr::Scoop);
        }
        assert(v@ =~= spec_available_managers(p));
        return v;
    }
    if p.brew {
        v.push(PkgMgr::Brew);
    }
    if p.linux {
        if p.apt {
            v.push(PkgMgr::Apt);
        }
        if p.dnf {
            v.push(PkgMgr::Dnf);
        }
        if p.pacman {
            v.push(PkgMgr::Pacman);
        }
    }
    assert(v@ =~= spec_available_managers(p));
    v
}

/// The next manager to try, from position `from` on: the first that has a
/// package for the compiler.
pub fn next_attempt(managers: &[PkgMgr], install: &Install, from: usize) -> (r: Option<usize>)
    ensures
        r matches Some(i) ==> from <= i < managers@.len() && spec_pkg_name(managers@[i as int], install@).len() > 0,
        forall|j: int| from <= j < managers@.len() && (r matches Some(i) ==> j < i)
            ==> spec_pkg_name(#[trigger] managers@[j], install@).len() == 0,
{
    let mut i = from;
    while i < managers.len()
        invariant
            from <= i,
            forall|j: int| from <= j < i && j < managers@.len() ==> spec_pkg_name(#[trigger] managers@[j], install@).len() == 0,
        decreases managers.len() - i,
    {
        let pkg = chars_of(managers[i].pkg_name(install));
        if pkg.len() > 0 {
            return Some(i);
        }
        i = i + 1;
    }
    None
}

/// Whether a scoop bucket is added before installing with this manager.
pub fn needs_bucket(mgr: PkgMgr, install: &Install) -> (r: bool)
    ensures
        r == (mgr is Scoop && install.scoop_bucket@.len() > 0),
{
    match mgr {
        PkgMgr::Scoop => {
            let cs = chars_of(install.scoop_bucket.as_str());
            cs.len() > 0
        },
        _ => false,
    }
}

/// A version line with a leading absolute path token (some compilers print
/// their own path first) removed.
pub open spec fn strip_path_token(line: Seq<char>) -> Seq<char> {
    if starts_with(line, "/"@) || starts_with(line, "C:\\"@) {
        match find_char(line, ' ') {
            Some(i) => trim(line.skip(i + 1)),
            None => trim(line),
        }
    } else {
        line
    }
}

/// The version a compiler reports: the first line of its standard output
/// (of its error output when the standard output is blank), trimmed and
/// without a leading path token; none when that is empty.
pub open spec fn spec_version_line(stdout: Seq<char>, stderr: Seq<char>) -> Option<Seq<char>> {
    let text = if trim(stdout).len() == 0 { stderr } else { stdout };
    let ls = lines(text);
    if ls.len() == 0 {
        None
    } else {
        let line = strip_path_token(trim(ls[0]));
        if line.len() == 0 {
            None
        } else {
            Some(line)
        }
    }
}

/// The version line of a compiler's `--version` output.
pub fn version_line(stdout: &str, stderr: &str) -> (r: Option<String>)
    ensures
        r is None <==> spec_version_line(stdout@, stderr@) is None,
        r matches Some(l) ==> spec_version_line(stdout@, stderr@) == Some(l@),
{
    let out_cs = chars_of(stdout);
    let t = trim_chars(out_cs.as_slice());
    let text = if t.len() == 0 { chars_of(stderr) } else { out_cs };
    let ls = lines_of(text.as_slice());
    if ls.len() == 0 {
        return None;
    }
    let first = trim_chars(ls[0].as_slice());
    let line = if starts_with_str(first.as_slice(), "/") || starts_with_str(first.as_slice(), "C:\\") {
        match find_char_in(first.as_slice(), ' ') {
            Some(i) => {
                proof {
                    lemma_find_char(first@, ' ');
                }
                assert(i < first@.len());
                let rest = slice_chars(first.as_slice(), i + 1, first.len());
                assert(rest@ == first@.skip(i + 1));
                trim_chars(rest.as_slice())
            },
            None => trim_chars(first.as_slice()),
        }
    } else {
        first
    };
    if line.len() == 0 {
        None
    } else {
        Some(string_of(line.as_slice()))
    }
}

/// A requested name stands for a compiler: its id or binary, or a part of
/// its (lowercased) language name.
pub open spec fn spec_compiler_matches(c: CompilerModel, name_lower: Seq<char>) -> bool {
    c.id == name_lower || c.bin == name_lower || contains_seq(unicode_lowercase(c.lang), name_lower)
}

fn compiler_matches(c: &Compiler, name_lower: &str) -> (r: bool)
    ensures
        r == spec_compiler_matches(c@, name_lower@),
{
    let n = chars_of(name_lower);
    let id = chars_of(c.id.as_str());
    let bin = chars_of(c.bin.as_str());
    if eq_str(id.as_slice(), name_lower) || eq_str(bin.as_slice(), name_lower) {
        return true;
    }
    let lang = lowercase(c.lang.as_str());
    let lang_cs = chars_of(lang.as_str());
    contains_str(lang_cs.as_slice(), name_lower)
}

/// The first compiler a requested name stands for (the name is lowercased first).
pub fn find_requested(compilers: &[Compiler], name: &str) -> (r: Option<usize>)
    ensures
        r matches Some(i) ==> i < compilers@.len()
            && spec_compiler_matches(compilers@[i as int]@, unicode_lowercase(name@)),
        forall|j: int| 0 <= j < compilers@.len() && (r matches Some(i) ==> j < i)
            ==> !spec_compiler_matches(#[trigger] compilers@[j]@, unicode_lowercase(name@)),
{
    let lowered = lowercase(name);
    let mut i: usize = 0;
    while i < compilers.len()
        invariant
            lowered@ == unicode_lowercase(name@),
            i <= compilers@.len(),
            forall|j: int| 0 <= j < i ==> !spec_compiler_matches(#[trigger] compilers@[j]@, unicode_lowercase(name@)),
        decreases compilers.len() - i,
    {
        if compiler_matches(&compilers[i], lowered.as_str()) {
            return Some(i);
        }
        i = i + 1;
    }
    None
}

/// What the tool does with one compiler named on the command line.
#[derive(Clone, Copy, Debug, PartialEq, Eq, Structural)]
pub enum Request {
    /// No compiler goes by that name.
    Unknown,
    /// The compiler at this position is not supported on this platform.
    Unsupported(usize),
    /// The compiler at this position is already installed.
    Installed(usize),
    /// The compiler at this position is to be installed.
    Install(usize),
}

/// Classifies one requested compiler name.
pub fn classify_request(compilers: &[Compiler], installed: &[bool], name: &str) -> (r: Request)
    requires
        installed@.len() == compilers@.len(),
    ensures
        r is Unknown <==> forall|j: int| 0 <= j < compilers@.len()
            ==> !spec_compiler_matches(#[trigger] compilers@[j]@, unicode_lowercase(name@)),
        r matches Request::Unsupported(i) ==> i < compilers@.len() && !compilers@[i as int].supported,
        r matches Request::Installed(i) ==> i < compilers@.len() && compilers@[i as int].supported && installed@[i as int],
        r matches Request::Install(i) ==> i < compilers@.len() && compilers@[i as int].supported && !installed@[i as int],
        r matches Request::Unsupported(i) ==> spec_compiler_matches(compilers@[i as int]@, unicode_lowercase(name@))
            && forall|j: int| 0 <= j < i ==> !spec_compiler_matches(#[trigger] compilers@[j]@, unicode_lowercase(name@)),
        r matches Request::Installed(i) ==> spec_compiler_matches(compilers@[i as int]@, unicode_lowercase(name@))
            && forall|j: int| 0 <= j < i ==> !spec_compiler_matches(#[trigger] compilers@[j]@, unicode_lowercase(name@)),
        r matches Request::Install(i) ==> spec_compiler_matches(compilers@[i as int]@, unicode_lowercase(name@))
            && forall|j: int| 0 <= j < i ==> !spec_compiler_matches(#[trigger] compilers@[j]@, unicode_lowercase(name@)),
{
    match find_requested(compilers, name) {
        None => Request::Unknown,
        Some(i) => {
            if !compilers[i].supported {
                Request::Unsupported(i)
            } else if installed[i] {
                Request::Installed(i)
            } else {
                Request::Install(i)
            }
        },
    }
}

/// The positions of the supported compilers that are not installed, in order.
pub open spec fn spec_missing(cs: Seq<CompilerModel>, installed: Seq<bool>, n: nat) -> Seq<usize>
    decreases n,
{
    if n == 0 {
        seq![]
    } else {
        let k = (n - 1) as nat;
        spec_missing(cs, installed, k) + (if cs[k as int].supported && !installed[k as int] {
            seq![k as usize]
        } else {
            seq![]
        })
    }
}

/// The supported compilers that are not installed (offered for selection).
pub fn missing_compilers(compilers: &[Compiler], installed: &[bool]) -> (r: Vec<usize>)
    requires
        installed@.len() == compilers@.len(),
    ensures
        r@ == spec_missing(compiler_views(compilers@), installed@, compilers@.len()),
{
    let ghost cs = compiler_views(compilers@);
    let mut out: Vec<usize> = Vec::new();
    for i in 0..compilers.len()
        invariant
            installed@.len() == compilers@.len(),
            cs == compiler_views(compilers@),
            out@ == spec_missing(cs, installed@, i as nat),
    {
        assert(cs[i as int] == compilers@[i as int]@);
        if compilers[i].supported && !installed[i] {
            out.push(i);
        }
        assert(out@ =~= spec_missing(cs, installed@, (i + 1) as nat));
    }
    out
}

/// The detail shown for a compiler by the status check.
pub open spec fn spec_status_detail(path: Option<Seq<char>>, version: Option<Seq<char>>, supported: bool, id: Seq<char>) -> Seq<char> {
    match path {
        Some(p) => match version {
            Some(v) => v + "  ("@ + p + ")"@,
            None => "installed  ("@ + p + ")"@,
        },
        None => if !supported {
            "not supported on this platform"@
        } else {
            "not found  \u{2014} run: eq install "@ + id
        },
    }
}

/// The detail shown for a compiler by the status check: its version and
/// location when found, else why it is missing.
pub fn status_detail(path: Option<&str>, version: Option<&str>, supported: bool, id: &str) -> (r: String)
    ensures
        r@ == spec_status_detail(
            match path { Some(p) => Some(p@), None => None },
            match version { Some(v) => Some(v@), None => None },
            supported,
            id@,
        ),
{
    match path {
        Some(p) => {
            let mut out = match version {
                Some(v) => {
                    let mut o = string_from(v);
                    push_str(&mut o, "  (");
                    o
                },
                None => string_from("installed  ("),
            };
            push_str(&mut out, p);
            push_str(&mut out, ")");
            out
        },
        None => {
            if !supported {
                string_from("not supported on this platform")
            } else {
                let mut out = string_from("not found  \u{2014} run: eq install ");
                push_str(&mut out, id);
                out
            }
        },
    }
}

/// The extra directories put on `PATH` for a build.
pub open spec fn spec_build_dirs() -> Seq<Seq<char>> {
    seq![
        "/home/linuxbrew/.linuxbrew/bin"@,
        "/home/linuxbrew/.linuxbrew/sbin"@,
        "/opt/homebrew/bin"@,
        "/opt/homebrew/sbin"@,
        "/usr/local/sbin"@,
        "/usr/local/bin"@,
        "/usr/local/odin"@,
    ]
}

/// The extra directories put on `PATH` for a build.
pub fn build_dirs() -> (r: Vec<String>)
    ensures
        string_views(r@) == spec_build_dirs(),
{
    let r = owned(&[
        "/home/linuxbrew/.linuxbrew/bin",
        "/home/linuxbrew/.linuxbrew/sbin",
        "/opt/homebrew/bin",
        "/opt/homebrew/sbin",
        "/usr/local/sbin",
        "/usr/local/bin",
        "/usr/local/odin",
    ]);
    assert(string_views(r@) =~= spec_build_dirs());
    r
}

/// The directories among the first `n` that exist and are not yet named in `current`.
pub open spec fn kept_dirs(dirs: Seq<Seq<char>>, exists: Seq<bool>, current: Seq<char>, n: nat) -> Seq<Seq<char>>
    decreases n,
{
    if n == 0 {
        seq![]
    } else {
        let k = (n - 1) as nat;
        kept_dirs(dirs, exists, current, k) + (if !contains_seq(current, dirs[k as int]) && exists[k as int] {
            seq![dirs[k as int]]
        } else {
            seq![]
        })
    }
}

/// The `PATH` for a build: the kept directories joined by `sep`, then `sep`
/// and the current `PATH`; the current `PATH` alone when nothing is kept.
pub open spec fn spec_build_path(current: Seq<char>, dirs: Seq<Seq<char>>, exists: Seq<bool>, sep: Seq<char>) -> Seq<char> {
    let prepend = join(kept_dirs(dirs, exists, current, dirs.len()), sep);
    if prepend.len() == 0 {
        current
    } else {
        prepend + sep + current
    }
}

/// The `PATH` under which a build runs, given which of `dirs` exist.
pub fn build_path(current: &str, dirs: &[String], exists: &[bool], sep: &str) -> (r: String)
    requires
        exists@.len() == dirs@.len(),
    ensures
        r@ == spec_build_path(current@, string_views(dirs@), exists@, sep@),
{
    let cur = chars_of(current);
    let ghost dv = string_views(dirs@);
    let mut kept: Vec<Vec<char>> = Vec::new();
    for i in 0..dirs.len()
        invariant
            exists@.len() == dirs@.len(),
            cur@ == current@,
            dv == string_views(dirs@),
            views(kept@) == kept_dirs(dv, exists@, current@, i as nat),
    {
        let d = chars_of(dirs[i].as_str());
        assert(d@ == dv[i as int]);
        if !contains_str(cur.as_slice(), dirs[i].as_str()) && exists[i] {
            kept.push(d);
        }
        assert(views(kept@) =~= kept_dirs(dv, exists@, current@, (i + 1) as nat));
    }
    let joined = join_chars(kept.as_slice(), sep);
    if joined.len() == 0 {
        string_from(current)
    } else {
        let mut out = string_of(joined.as_slice());
        push_str(&mut out, sep);
        push_str(&mut out, current);
        out
    }
}

/// Whether an extension names a C or C++ header (`h`, `hh`, `hpp`, `hxx`).
pub open spec fn spec_is_header_extension(ext: Option<Seq<char>>) -> bool {
    match ext {
        Some(e) => e == "h"@ || e == "hh"@ || e == "hpp"@ || e == "hxx"@,
        None => false,
    }
}

/// Whether a file with this extension is read as a header rather than compiled.
pub fn is_header_extension(ext: Option<&str>) -> (r: bool)
    ensures
        r == spec_is_header_extension(match ext { Some(e) => Some(e@), None => None }),
{
    match ext {
        Some(e) => {
            let cs = chars_of(e);
            let c = cs.as_slice();
            eq_str(c, "h") || eq_str(c, "hh") || eq_str(c, "hpp") || eq_str(c, "hxx")
        },
        None => false,
    }
}

proof fn lemma_add_present(a: Seq<PkgMgr>, b: bool, m: PkgMgr)
    requires
        a.no_duplicates(),
        !a.contains(m),
    ensures
        (a + present(b, m)).no_duplicates(),
        forall|x: PkgMgr| (a + present(b, m)).contains(x) <==> a.contains(x) || (b && x == m),
{
    let r = a + present(b, m);
    assert forall|x: PkgMgr| r.contains(x) <==> a.contains(x) || (b && x == m) by {
        if r.contains(x) {
            let i = choose|i: int| 0 <= i < r.len() && r[i] == x;
            if i < a.len() {
                assert(a[i] == x);
            }
        }
        if a.contains(x) {
            let i = choose|i: int| 0 <= i < a.len() && a[i] == x;
            assert(r[i] == x);
        }
        if b && x == m {
            assert(r[a.len() as int] == x);
        }
    }
    assert forall|i: int, j: int| 0 <= i < r.len() && 0 <= j < r.len() && i != j implies r[i] != r[j] by {
        if i < a.len() && j >= a.len() {
            assert(a.contains(r[i]));
        } else if j < a.len() && i >= a.len() {
            assert(a.contains(r[j]));
        }
    }
}

/// Each usable package manager is listed once, wax (when found) first; on
/// Windows only wax, winget and scoop are used, and a manager that needs
/// `sudo` is used on Linux only.
pub proof fn law_available_managers(p: ManagerProbes)
    ensures
        spec_available_managers(p).no_duplicates(),
        p.wax ==> spec_available_managers(p)[0] == PkgMgr::Wax,
        forall|m: PkgMgr| #[trigger] spec_available_managers(p).contains(m) && p.windows
            ==> m is Wax || m is Winget || m is Scoop,
        forall|m: PkgMgr| #[trigger] spec_available_managers(p).contains(m) && spec_needs_sudo(m)
            ==> p.linux && !p.windows,
{
    let e = Seq::<PkgMgr>::empty();
    assert(e + present(p.wax, PkgMgr::Wax) =~= present(p.wax, PkgMgr::Wax));
    lemma_add_present(e, p.wax, PkgMgr::Wax);
    let a1 = present(p.wax, PkgMgr::Wax);
    if p.windows {
        lemma_add_present(a1, p.winget, PkgMgr::Winget);
        let a2 = a1 + present(p.winget, PkgMgr::Winget);
        lemma_add_present(a2, p.scoop, PkgMgr::Scoop);
    } else {
        lemma_add_present(a1, p.brew, PkgMgr::Brew);
        let a2 = a1 + present(p.brew, PkgMgr::Brew);
        if p.linux {
            lemma_add_present(a2, p.apt, PkgMgr::Apt);
            let a3 = a2 + present(p.apt, PkgMgr::Apt);
            lemma_add_present(a3, p.dnf, PkgMgr::Dnf);
            let a4 = a3 + present(p.dnf, PkgMgr::Dnf);
            lemma_add_present(a4, p.pacman, PkgMgr::Pacman);
        }
    }
}

/// The compilers offered for installation are exactly the supported ones not
/// yet installed, each once, in catalogue order.
pub proof fn law_missing_compilers(cs: Seq<CompilerModel>, installed: Seq<bool>, n: nat)
    requires
        n <= cs.len(),
        n <= installed.len(),
        n <= usize::MAX,
    ensures
        forall|j: int| 0 <= j < spec_missing(cs, installed, n).len() ==> {
            let k = #[trigger] spec_missing(cs, installed, n)[j] as int;
            k < n && cs[k].supported && !installed[k]
        },
        forall|i: int, j: int| 0 <= i < j < spec_missing(cs, installed, n).len()
            ==> spec_missing(cs, installed, n)[i] < spec_missing(cs, installed, n)[j],
        forall|k: int| 0 <= k < n && #[trigger] cs[k].supported && !installed[k]
            ==> spec_missing(cs, installed, n).contains(k as usize),
    decreases n,
{
    if n > 0 {
        let m = (n - 1) as nat;
        law_missing_compilers(cs, installed, m);
        let s0 = spec_missing(cs, installed, m);
        let s = spec_missing(cs, installed, n);
        let add = cs[m as int].supported && !installed[m as int];
        if add {
            assert(s == s0.push(m as usize));
        } else {
            assert(s == s0);
        }
        assert forall|j: int| 0 <= j < s.len() implies {
            let k = #[trigger] s[j] as int;
            k < n && cs[k].supported && !installed[k]
        } by {
            if j < s0.len() {
                assert(s[j] == s0[j]);
            }
        }
        assert forall|i: int, j: int| 0 <= i < j < s.len() implies s[i] < s[j] by {
            if j < s0.len() {
                assert(s[i] == s0[i] && s[j] == s0[j]);
            } else {
                assert(s[i] == s0[i]);
                assert((s0[i] as int) < m);
            }
        }
        assert forall|k: int| 0 <= k < n && #[trigger] cs[k].supported && !installed[k] implies s.contains(k as usize) by {
            if k < m {
                let j = choose|j: int| 0 <= j < s0.len() && s0[j] == k as usize;
                assert(s[j] == k as usize);
            } else {
                assert(s[s.len() - 1] == k as usize);
            }
        }
    }
}

/// A build keeps the caller's `PATH`, at the end of the one it runs under.
pub proof fn law_build_path_keeps_current(
    current: Seq<char>,
    dirs: Seq<Seq<char>>,
    exists: Seq<bool>,
    sep: Seq<char>,
)
    ensures
        ends_with(spec_build_path(current, dirs, exists, sep), current),
{
    let r = spec_build_path(current, dirs, exists, sep);
    assert(r.skip(r.len() - current.len()) =~= current);
}

} // verus!
