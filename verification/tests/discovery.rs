use codex_core::discovery::{
    candidate_paths, choose_candidate, discover_codex_command, get_platform_binary_name,
    home_for, is_wrapper_script, Candidate, DiscoveryEnv, PathProbe, ProbeRule,
};

fn linux_env() -> DiscoveryEnv {
    DiscoveryEnv {
        windows: false,
        os: "linux".to_string(),
        arch: "x86_64".to_string(),
        home: Some("/home/u".to_string()),
        user_profile: None,
        current_dir: Some("/cwd".to_string()),
        codex_path: None,
        app_data: None,
        path: Some("/usr/bin::/opt/bin".to_string()),
    }
}

fn windows_env() -> DiscoveryEnv {
    DiscoveryEnv {
        windows: true,
        os: "windows".to_string(),
        arch: "x86_64".to_string(),
        home: Some("C:/msys/home".to_string()),
        user_profile: Some("C:/Users/u".to_string()),
        current_dir: None,
        codex_path: Some("D:/codex.exe".to_string()),
        app_data: Some("C:/AppData".to_string()),
        path: Some("C:/bin;".to_string()),
    }
}

fn place(root: &str, parts: &[&str], rule: ProbeRule) -> Candidate {
    Candidate {
        root: root.to_string(),
        parts: parts.iter().map(|p| p.to_string()).collect(),
        rule,
    }
}

fn missing() -> PathProbe {
    PathProbe { exists: false, content: None }
}

fn binary() -> PathProbe {
    PathProbe { exists: true, content: None }
}

fn text(content: &str) -> PathProbe {
    PathProbe { exists: true, content: Some(content.to_string()) }
}

#[test]
fn binary_names_by_platform() {
    assert_eq!(get_platform_binary_name("macos", "aarch64"), "codex-aarch64-apple-darwin");
    assert_eq!(get_platform_binary_name("macos", "x86_64"), "codex-x86_64-apple-darwin");
    assert_eq!(get_platform_binary_name("linux", "x86_64"), "codex-x86_64-unknown-linux-musl");
    assert_eq!(get_platform_binary_name("linux", "aarch64"), "codex-aarch64-unknown-linux-musl");
    assert_eq!(get_platform_binary_name("windows", "x86_64"), "codex-x86_64-pc-windows-msvc.exe");
    assert_eq!(get_platform_binary_name("windows", "aarch64"), "codex");
    assert_eq!(get_platform_binary_name("freebsd", "x86_64"), "codex");
    assert_eq!(get_platform_binary_name("", ""), "codex");
}

#[test]
fn home_directory_falls_back() {
    let mut env = linux_env();
    assert_eq!(home_for(&env), "/home/u");
    env.user_profile = Some("C:/Users/u".to_string());
    assert_eq!(home_for(&env), "/home/u");
    env.home = None;
    assert_eq!(home_for(&env), "/cwd");
    env.current_dir = None;
    assert_eq!(home_for(&env), ".");
    let mut env = windows_env();
    assert_eq!(home_for(&env), "C:/Users/u");
    env.user_profile = None;
    assert_eq!(home_for(&env), "C:/msys/home");
    env.home = None;
    assert_eq!(home_for(&env), ".");
}

#[test]
fn candidates_on_linux() {
    let binary = "codex-x86_64-unknown-linux-musl";
    let expected = vec![
        place(
            "/home/u",
            &[".bun/install/global/node_modules/@openai/codex/bin", binary],
            ProbeRule::Plain,
        ),
        place(
            "/home/u",
            &[".local/share/npm/lib/node_modules/@openai/codex/bin", binary],
            ProbeRule::Plain,
        ),
        place("/usr/local/lib/node_modules/@openai/codex/bin", &[binary], ProbeRule::Plain),
        place("/opt/homebrew/lib/node_modules/@openai/codex/bin", &[binary], ProbeRule::Plain),
        place("/home/u", &[".cargo/bin/codex"], ProbeRule::Native),
        place("/home/u", &[".cargo/bin/codex.exe"], ProbeRule::Native),
        place("/usr/local/bin/codex", &[], ProbeRule::Native),
        place("/opt/homebrew/bin/codex", &[], ProbeRule::Native),
        place("/usr/bin", &["codex"], ProbeRule::OnPath),
        place("/opt/bin", &["codex"], ProbeRule::OnPath),
    ];
    assert_eq!(candidate_paths(&linux_env()), expected);
}

#[test]
fn candidates_on_windows() {
    let binary = "codex-x86_64-pc-windows-msvc.exe";
    let found = candidate_paths(&windows_env());
    assert_eq!(found.len(), 16);
    assert_eq!(found[0], place("D:/codex.exe", &[], ProbeRule::Plain));
    assert_eq!(
        found[1],
        place(
            "C:/Users/u",
            &[".bun/install/global/node_modules/@openai/codex/bin", binary],
            ProbeRule::Plain
        )
    );
    assert_eq!(found[5], place("C:/AppData", &["npm", "codex.cmd"], ProbeRule::Plain));
    assert_eq!(found[6], place("C:/AppData", &["npm", "codex.ps1"], ProbeRule::Plain));
    assert_eq!(found[7], place("C:/AppData", &["npm", "codex"], ProbeRule::Plain));
    assert_eq!(found[8], place("C:/Users/u", &[".cargo/bin/codex"], ProbeRule::Native));
    assert_eq!(found[12], place("C:/bin", &["codex.exe"], ProbeRule::OnPath));
    assert_eq!(found[13], place("C:/bin", &["codex.cmd"], ProbeRule::OnPath));
    assert_eq!(found[14], place("C:/bin", &["codex.ps1"], ProbeRule::OnPath));
    assert_eq!(found[15], place("C:/bin", &["codex"], ProbeRule::OnPath));
}

#[test]
fn candidates_without_a_search_path() {
    let mut env = linux_env();
    env.path = None;
    assert_eq!(candidate_paths(&env).len(), 8);
    env.path = Some(String::new());
    assert_eq!(candidate_paths(&env).len(), 8);
    env.path = Some(":::".to_string());
    assert_eq!(candidate_paths(&env).len(), 8);
    env.path = Some("/a".to_string());
    assert_eq!(candidate_paths(&env).len(), 9);
    env.app_data = Some("ignored off windows".to_string());
    assert_eq!(candidate_paths(&env).len(), 9);
}

#[test]
fn wrapper_scripts_are_told_apart() {
    assert!(is_wrapper_script("#!/usr/bin/env node\nrequire('x')", false));
    assert!(is_wrapper_script("exec node codex.js \"$@\"", false));
    assert!(!is_wrapper_script(" #!/usr/bin/env node", false));
    assert!(!is_wrapper_script("import sys", false));
    assert!(is_wrapper_script("import sys", true));
    assert!(is_wrapper_script("x codex.js", true));
    assert!(!is_wrapper_script("#!/bin/sh\nexec codex-real", true));
    assert!(!is_wrapper_script("", true));
}

#[test]
fn first_place_that_exists_is_taken() {
    let places = candidate_paths(&linux_env());
    let mut probes: Vec<PathProbe> = places.iter().map(|_| missing()).collect();
    assert_eq!(choose_candidate(&places, &probes), None);
    probes[9] = binary();
    assert_eq!(choose_candidate(&places, &probes), Some(9));
    probes[6] = binary();
    assert_eq!(choose_candidate(&places, &probes), Some(6));
    probes[2] = text("#!/usr/bin/env node");
    assert_eq!(choose_candidate(&places, &probes), Some(2));
}

#[test]
fn launcher_scripts_are_passed_over() {
    let places = candidate_paths(&linux_env());
    let mut probes: Vec<PathProbe> = places.iter().map(|_| missing()).collect();
    probes[4] = text("#!/usr/bin/env node\n");
    probes[6] = text("node codex.js");
    probes[7] = text("import nothing");
    assert_eq!(choose_candidate(&places, &probes), Some(7));
    probes[7] = missing();
    assert_eq!(choose_candidate(&places, &probes), None);
}

#[test]
fn script_on_the_search_path_is_the_last_resort() {
    let places = candidate_paths(&linux_env());
    let mut probes: Vec<PathProbe> = places.iter().map(|_| missing()).collect();
    probes[8] = text("import codex");
    probes[9] = text("#!/usr/bin/env node");
    assert_eq!(choose_candidate(&places, &probes), Some(8));
    probes[9] = text("#!/bin/sh");
    assert_eq!(choose_candidate(&places, &probes), Some(9));
    probes[9] = binary();
    assert_eq!(choose_candidate(&places, &probes), Some(9));
}

#[test]
fn places_without_a_probe_count_as_missing() {
    let places = candidate_paths(&linux_env());
    assert_eq!(choose_candidate(&places, &vec![]), None);
    assert_eq!(choose_candidate(&places, &vec![missing(), binary()]), Some(1));
    assert_eq!(choose_candidate(&vec![], &vec![binary()]), None);
}

#[test]
fn discover_returns_the_chosen_place() {
    let env = linux_env();
    let places = candidate_paths(&env);
    let mut probes: Vec<PathProbe> = places.iter().map(|_| missing()).collect();
    assert_eq!(discover_codex_command(&env, &probes), None);
    probes[5] = binary();
    assert_eq!(
        discover_codex_command(&env, &probes),
        Some(place("/home/u", &[".cargo/bin/codex.exe"], ProbeRule::Native))
    );
}

#[test]
fn override_comes_first() {
    let env = windows_env();
    let places = candidate_paths(&env);
    let probes: Vec<PathProbe> = places.iter().map(|_| binary()).collect();
    assert_eq!(
        discover_codex_command(&env, &probes),
        Some(place("D:/codex.exe", &[], ProbeRule::Plain))
    );
    let mut probes: Vec<PathProbe> = places.iter().map(|_| binary()).collect();
    probes[0] = missing();
    assert_eq!(choose_candidate(&places, &probes), Some(1));
}
