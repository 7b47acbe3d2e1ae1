use equilibrium_ffi::toolchain::{
    available_managers, build_dirs, build_path, choose_binary, classify_request, compilers,
    extra_path_refs, find_bin, probe_managers,
    find_requested, install_command_line, is_header_extension, missing_compilers,
    needs_bucket, next_attempt, status_detail, version_arg_refs, version_line, ManagerProbes,
    PkgMgr, Request,
};
use std::path::PathBuf;

fn probes() -> ManagerProbes {
    ManagerProbes {
        wax: false,
        windows: false,
        linux: true,
        scoop: false,
        winget: false,
        brew: false,
        apt: false,
        dnf: false,
        pacman: false,
    }
}

#[test]
fn catalogue_lists_seven_compilers() {
    let cs = compilers(true);
    let ids: Vec<&str> = cs.iter().map(|c| c.id.as_str()).collect();
    assert_eq!(ids, vec!["zig", "nim", "v", "d", "odin", "hare", "dotnet"]);
    assert!(cs[5].supported);
    assert!(!compilers(false)[5].supported);
    assert_eq!(cs[3].bin, "ldc2");
    assert_eq!(cs[4].install.scoop_bucket, "versions");
    assert_eq!(extra_path_refs(&cs[5].extra_paths), vec!["/usr/local/bin", "/usr/bin"]);
    assert_eq!(version_arg_refs(&cs[0].version_args), vec!["version"]);
}

#[test]
fn install_order_per_platform() {
    let linux = ManagerProbes { wax: true, brew: true, apt: true, pacman: true, ..probes() };
    assert_eq!(
        available_managers(linux),
        vec![PkgMgr::Wax, PkgMgr::Brew, PkgMgr::Apt, PkgMgr::Pacman]
    );
    let mac = ManagerProbes { linux: false, brew: true, apt: true, ..probes() };
    assert_eq!(available_managers(mac), vec![PkgMgr::Brew]);
    let windows = ManagerProbes { linux: false, windows: true, scoop: true, winget: true, brew: true, ..probes() };
    assert_eq!(available_managers(windows), vec![PkgMgr::Winget, PkgMgr::Scoop]);
    assert!(available_managers(probes()).is_empty());
}

#[test]
fn package_manager_commands() {
    assert_eq!(PkgMgr::Apt.cmd(), "apt-get");
    assert_eq!(PkgMgr::Apt.install_args("zig"), vec!["install", "-y", "zig"]);
    assert_eq!(PkgMgr::Pacman.install_args("zig"), vec!["-S", "--noconfirm", "zig"]);
    assert_eq!(PkgMgr::Winget.install_args("zig.zig"), vec!["install", "-e", "--id", "zig.zig"]);
    assert!(PkgMgr::Dnf.needs_sudo());
    assert!(!PkgMgr::Brew.needs_sudo());
    let apt_args = PkgMgr::Apt.install_args("nim");
    assert_eq!(install_command_line(PkgMgr::Apt, &apt_args), "sudo apt-get install -y nim");
    let brew_args = PkgMgr::Brew.install_args("nim");
    assert_eq!(install_command_line(PkgMgr::Brew, &brew_args), "brew install nim");
    let cs = compilers(true);
    assert_eq!(PkgMgr::Wax.pkg_name(&cs[2].install), "vlang");
    assert_eq!(PkgMgr::Apt.pkg_name(&cs[2].install), "");
}

#[test]
fn attempts_skip_managers_without_the_package() {
    let cs = compilers(true);
    let v = &cs[2];
    let managers = [PkgMgr::Apt, PkgMgr::Dnf, PkgMgr::Pacman, PkgMgr::Scoop];
    assert_eq!(next_attempt(&managers, &v.install, 0), Some(2));
    assert_eq!(next_attempt(&managers, &v.install, 3), Some(3));
    assert_eq!(next_attempt(&managers[..2], &v.install, 0), None);
    assert!(needs_bucket(PkgMgr::Scoop, &cs[4].install));
    assert!(!needs_bucket(PkgMgr::Scoop, &cs[0].install));
    assert!(!needs_bucket(PkgMgr::Brew, &cs[4].install));
}

#[test]
fn version_lines() {
    assert_eq!(version_line("0.13.0\n", ""), Some("0.13.0".to_string()));
    assert_eq!(version_line("  \n", "Nim Compiler 2.0\nmore"), Some("Nim Compiler 2.0".to_string()));
    assert_eq!(version_line("/usr/bin/odin version dev-2024\n", ""), Some("version dev-2024".to_string()));
    assert_eq!(version_line("/opt/odin\n", ""), Some("/opt/odin".to_string()));
    assert_eq!(version_line("", ""), None);
    assert_eq!(version_line("\n", "  "), None);
}

#[test]
fn requested_compilers() {
    let cs = compilers(true);
    assert_eq!(find_requested(&cs, "ZIG"), Some(0));
    assert_eq!(find_requested(&cs, "ldc2"), Some(3));
    assert_eq!(find_requested(&cs, "c#"), Some(6));
    assert_eq!(find_requested(&cs, "cobol"), None);
    let mut installed = vec![false; cs.len()];
    installed[1] = true;
    assert_eq!(classify_request(&cs, &installed, "nim"), Request::Installed(1));
    assert_eq!(classify_request(&cs, &installed, "odin"), Request::Install(4));
    assert_eq!(classify_request(&cs, &installed, "cobol"), Request::Unknown);
    let mac = compilers(false);
    assert_eq!(classify_request(&mac, &installed, "hare"), Request::Unsupported(5));
    assert_eq!(missing_compilers(&mac, &installed), vec![0, 2, 3, 4, 6]);
}

#[test]
fn status_details() {
    assert_eq!(status_detail(Some("/bin/zig"), Some("0.13.0"), true, "zig"), "0.13.0  (/bin/zig)");
    assert_eq!(status_detail(Some("/bin/zig"), None, true, "zig"), "installed  (/bin/zig)");
    assert_eq!(status_detail(None, None, false, "hare"), "not supported on this platform");
    assert_eq!(status_detail(None, None, true, "nim"), "not found  \u{2014} run: eq install nim");
}

#[test]
fn build_path_prepends_existing_new_directories() {
    let dirs = build_dirs();
    assert_eq!(dirs.len(), 7);
    let exists = vec![true, false, true, false, false, true, false];
    assert_eq!(
        build_path("/usr/local/bin:/usr/bin", &dirs, &exists, ":"),
        "/home/linuxbrew/.linuxbrew/bin:/opt/homebrew/bin:/usr/local/bin:/usr/bin"
    );
    assert_eq!(build_path("/x", &dirs, &vec![false; 7], ":"), "/x");
}

#[test]
fn header_extensions() {
    assert!(is_header_extension(Some("h")));
    assert!(is_header_extension(Some("hpp")));
    assert!(!is_header_extension(Some("c")));
    assert!(!is_header_extension(None));
}

#[test]
fn binaries_on_path_win_over_candidate_locations() {
    let candidates = vec![PathBuf::from("/a/zig"), PathBuf::from("/b/zig")];
    assert_eq!(
        choose_binary(Some(PathBuf::from("/usr/bin/zig")), &candidates, &[true, true]),
        Some(PathBuf::from("/usr/bin/zig"))
    );
    assert_eq!(choose_binary(None, &candidates, &[false, true]), Some(PathBuf::from("/b/zig")));
    assert_eq!(choose_binary(None, &candidates, &[false, false]), None);
    let found = find_bin("no-such-program-equilibrium", &candidates, &[false, true]);
    assert_eq!(found, Some(PathBuf::from("/b/zig")));
}

#[test]
fn manager_probes_keep_platform_and_elsewhere_flags() {
    let p = probe_managers(true, true, false, true);
    assert!(p.wax && p.brew && p.linux && !p.windows);
    let q = probe_managers(false, false, true, false);
    assert!(q.windows && !q.linux);
}
