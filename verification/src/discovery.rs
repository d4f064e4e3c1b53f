//! Where the agent's executable is looked for, and which of the places
//! found is taken.
//!
//! Nothing here touches the disk or the environment. The caller hands in
//! what the environment says, asks for the places to look at, finds out what
//! the disk holds at each, and hands that in for the choice.

use crate::text::{begins_with, chars_of, contains, occurs_in, same_text, spans_of, split_spans};
use crate::text::{pieces, starts_with, string_of, text_views};
use vstd::prelude::*;
use vstd::string::StringExecFns;

verus! {

/// How a place that exists is judged.
#[derive(Clone, Copy, PartialEq, Eq, Debug, Structural)]
pub enum ProbeRule {
    /// The place is taken if it exists.
    Plain,
    /// The place is taken if it exists and is no launcher script.
    Native,
    /// The place is taken if it exists and is no script; a script is kept
    /// for the case that nothing else is found.
    OnPath,
}

/// A place at which the executable may be: the path `root`, extended by
/// `parts` in turn.
#[derive(Debug, PartialEq, Eq)]
pub struct Candidate {
    pub root: String,
    pub parts: Vec<String>,
    pub rule: ProbeRule,
}

/// The mathematical value of a [`Candidate`].
pub struct CandidateModel {
    pub root: Seq<char>,
    pub parts: Seq<Seq<char>>,
    pub rule: ProbeRule,
}

impl View for Candidate {
    type V = CandidateModel;

    open spec fn view(&self) -> CandidateModel {
        CandidateModel { root: self.root@, parts: text_views(self.parts@), rule: self.rule }
    }
}

impl Clone for Candidate {
    fn clone(&self) -> (copy: Self)
        ensures
            copy@ == self@,
    {
        let mut parts: Vec<String> = Vec::new();
        let mut i: usize = 0;
        while i < self.parts.len()
            invariant
                i <= self.parts.len(),
                text_views(parts@) == text_views(self.parts@).take(i as int),
            decreases self.parts.len() - i,
        {
            let ghost before = parts@;
            let copy = self.parts[i].clone();
            parts.push(copy);
            i += 1;
            assert(text_views(parts@) =~= text_views(before).push(copy@));
            assert(text_views(self.parts@).take(i as int) =~= text_views(self.parts@).take(
                i as int - 1,
            ).push(self.parts@[i as int - 1]@));
        }
        assert(text_views(self.parts@).take(i as int) =~= text_views(self.parts@));
        Candidate { root: self.root.clone(), parts, rule: self.rule }
    }
}

/// The views of the candidates in `candidates`.
pub open spec fn candidate_views(candidates: Seq<Candidate>) -> Seq<CandidateModel> {
    candidates.map_values(|c: Candidate| c@)
}

/// What the disk holds at a place.
#[derive(Debug, PartialEq, Eq)]
pub struct PathProbe {
    pub exists: bool,
    /// The content, if the place holds readable text.
    pub content: Option<String>,
}

/// The mathematical value of a [`PathProbe`].
pub struct ProbeModel {
    pub exists: bool,
    pub content: Option<Seq<char>>,
}

impl View for PathProbe {
    type V = ProbeModel;

    open spec fn view(&self) -> ProbeModel {
        ProbeModel {
            exists: self.exists,
            content: match self.content {
                Some(c) => Some(c@),
                None => None,
            },
        }
    }
}

/// The views of the probes in `probes`.
pub open spec fn probe_views(probes: Seq<PathProbe>) -> Seq<ProbeModel> {
    probes.map_values(|p: PathProbe| p@)
}

/// What the environment says.
#[derive(Debug, PartialEq, Eq)]
pub struct DiscoveryEnv {
    /// Whether the system is Windows.
    pub windows: bool,
    /// The name of the operating system, such as `linux`.
    pub os: String,
    /// The name of the processor architecture, such as `x86_64`.
    pub arch: String,
    /// The variable `HOME`.
    pub home: Option<String>,
    /// The variable `USERPROFILE`.
    pub user_profile: Option<String>,
    /// The current directory.
    pub current_dir: Option<String>,
    /// The variable `CODEX_PATH`.
    pub codex_path: Option<String>,
    /// The variable `APPDATA`.
    pub app_data: Option<String>,
    /// The variable `PATH`.
    pub path: Option<String>,
}

/// The mathematical value of a [`DiscoveryEnv`].
pub struct EnvModel {
    pub windows: bool,
    pub os: Seq<char>,
    pub arch: Seq<char>,
    pub home: Option<Seq<char>>,
    pub user_profile: Option<Seq<char>>,
    pub current_dir: Option<Seq<char>>,
    pub codex_path: Option<Seq<char>>,
    pub app_data: Option<Seq<char>>,
    pub path: Option<Seq<char>>,
}

/// The view of an optional string.
pub open spec fn optional_view(text: Option<String>) -> Option<Seq<char>> {
    match text {
        Some(t) => Some(t@),
        None => None,
    }
}

impl View for DiscoveryEnv {
    type V = EnvModel;

    open spec fn view(&self) -> EnvModel {
        EnvModel {
            windows: self.windows,
            os: self.os@,
            arch: self.arch@,
            home: optional_view(self.home),
            user_profile: optional_view(self.user_profile),
            current_dir: optional_view(self.current_dir),
            codex_path: optional_view(self.codex_path),
            app_data: optional_view(self.app_data),
            path: optional_view(self.path),
        }
    }
}

/// The name of the executable that is packaged for a system.
pub open spec fn binary_name(os: Seq<char>, arch: Seq<char>) -> Seq<char> {
    if os == "macos"@ && arch == "aarch64"@ {
        "codex-aarch64-apple-darwin"@
    } else if os == "macos"@ && arch == "x86_64"@ {
        "codex-x86_64-apple-darwin"@
    } else if os == "linux"@ && arch == "x86_64"@ {
        "codex-x86_64-unknown-linux-musl"@
    } else if os == "linux"@ && arch == "aarch64"@ {
        "codex-aarch64-unknown-linux-musl"@
    } else if os == "windows"@ && arch == "x86_64"@ {
        "codex-x86_64-pc-windows-msvc.exe"@
    } else {
        "codex"@
    }
}

/// The name of the executable that is packaged for the operating system
/// `os` on the architecture `arch`; `codex` for a system for which none is.
pub fn get_platform_binary_name(os: &str, arch: &str) -> (name: &'static str)
    ensures
        name@ == binary_name(os@, arch@),
{
    if same_text(os, "macos") && same_text(arch, "aarch64") {
        "codex-aarch64-apple-darwin"
    } else if same_text(os, "macos") && same_text(arch, "x86_64") {
        "codex-x86_64-apple-darwin"
    } else if same_text(os, "linux") && same_text(arch, "x86_64") {
        "codex-x86_64-unknown-linux-musl"
    } else if same_text(os, "linux") && same_text(arch, "aarch64") {
        "codex-aarch64-unknown-linux-musl"
    } else if same_text(os, "windows") && same_text(arch, "x86_64") {
        "codex-x86_64-pc-windows-msvc.exe"
    } else {
        "codex"
    }
}

/// The directory that stands for the user's home: on Windows the user
/// profile if it is set; else `HOME`; else the current directory; else `.`.
pub open spec fn home_of(env: EnvModel) -> Seq<char> {
    if env.windows && env.user_profile is Some {
        env.user_profile->0
    } else if env.home is Some {
        env.home->0
    } else if env.current_dir is Some {
        env.current_dir->0
    } else {
        "."@
    }
}

/// The directory that stands for the user's home.
pub fn home_for(env: &DiscoveryEnv) -> (home: String)
    ensures
        home@ == home_of(env@),
{
    if env.windows {
        match &env.user_profile {
            Some(profile) => {
                return profile.clone();
            },
            None => {},
        }
    }
    match &env.home {
        Some(home) => home.clone(),
        None => match &env.current_dir {
            Some(dir) => dir.clone(),
            None => String::from_str("."),
        },
    }
}

/// The place given by the variable `CODEX_PATH`, if it is set.
pub open spec fn override_candidates(env: EnvModel) -> Seq<CandidateModel> {
    match env.codex_path {
        Some(path) => seq![
            CandidateModel { root: path, parts: Seq::empty(), rule: ProbeRule::Plain },
        ],
        None => Seq::empty(),
    }
}

/// The places at which package managers put the packaged executable.
pub open spec fn packaged_candidates(home: Seq<char>, binary: Seq<char>) -> Seq<CandidateModel> {
    seq![
        CandidateModel {
            root: home,
            parts: seq![".bun/install/global/node_modules/@openai/codex/bin"@, binary],
            rule: ProbeRule::Plain,
        },
        CandidateModel {
            root: home,
            parts: seq![".local/share/npm/lib/node_modules/@openai/codex/bin"@, binary],
            rule: ProbeRule::Plain,
        },
        CandidateModel {
            root: "/usr/local/lib/node_modules/@openai/codex/bin"@,
            parts: seq![binary],
            rule: ProbeRule::Plain,
        },
        CandidateModel {
            root: "/opt/homebrew/lib/node_modules/@openai/codex/bin"@,
            parts: seq![binary],
            rule: ProbeRule::Plain,
        },
    ]
}

/// The launchers that npm installs on Windows, if `APPDATA` is set.
pub open spec fn npm_candidates(env: EnvModel) -> Seq<CandidateModel> {
    if env.windows && env.app_data is Some {
        seq![
            CandidateModel {
                root: env.app_data->0,
                parts: seq!["npm"@, "codex.cmd"@],
                rule: ProbeRule::Plain,
            },
            CandidateModel {
                root: env.app_data->0,
                parts: seq!["npm"@, "codex.ps1"@],
                rule: ProbeRule::Plain,
            },
            CandidateModel {
                root: env.app_data->0,
                parts: seq!["npm"@, "codex"@],
                rule: ProbeRule::Plain,
            },
        ]
    } else {
        Seq::empty()
    }
}

/// The places at which a natively built executable is installed.
pub open spec fn native_candidates(home: Seq<char>) -> Seq<CandidateModel> {
    seq![
        CandidateModel { root: home, parts: seq![".cargo/bin/codex"@], rule: ProbeRule::Native },
        CandidateModel {
            root: home,
            parts: seq![".cargo/bin/codex.exe"@],
            rule: ProbeRule::Native,
        },
        CandidateModel {
            root: "/usr/local/bin/codex"@,
            parts: Seq::empty(),
            rule: ProbeRule::Native,
        },
        CandidateModel {
            root: "/opt/homebrew/bin/codex"@,
            parts: Seq::empty(),
            rule: ProbeRule::Native,
        },
    ]
}

/// The character that separates the directories of the search path.
pub open spec fn path_separator(windows: bool) -> char {
    if windows {
        ';'
    } else {
        ':'
    }
}

/// The file names under which the executable is looked for in a directory
/// of the search path.
pub open spec fn search_names(windows: bool) -> Seq<Seq<char>> {
    if windows {
        seq!["codex.exe"@, "codex.cmd"@, "codex.ps1"@, "codex"@]
    } else {
        seq!["codex"@]
    }
}

/// The places in the directory `dir` of the search path: one for each name,
/// and none where the directory's name is empty.
pub open spec fn directory_candidates(dir: Seq<char>, names: Seq<Seq<char>>) -> Seq<
    CandidateModel,
> {
    if dir.len() == 0 {
        Seq::empty()
    } else {
        names.map_values(
            |name: Seq<char>| CandidateModel { root: dir, parts: seq![name], rule: ProbeRule::OnPath },
        )
    }
}

/// The places in the directories `dirs` of the search path, directory by
/// directory.
pub open spec fn search_candidates(dirs: Seq<Seq<char>>, names: Seq<Seq<char>>) -> Seq<
    CandidateModel,
>
    decreases dirs.len(),
{
    if dirs.len() == 0 {
        Seq::empty()
    } else {
        search_candidates(dirs.drop_last(), names) + directory_candidates(dirs.last(), names)
    }
}

/// The places on the search path, if `PATH` is set.
pub open spec fn path_candidates(env: EnvModel) -> Seq<CandidateModel> {
    match env.path {
        Some(path) => search_candidates(
            pieces(path, path_separator(env.windows)),
            search_names(env.windows),
        ),
        None => Seq::empty(),
    }
}

/// Every place at which the executable is looked for, in the order of
/// preference.
pub open spec fn candidates_of(env: EnvModel) -> Seq<CandidateModel> {
    override_candidates(env) + packaged_candidates(home_of(env), binary_name(env.os, env.arch))
        + npm_candidates(env) + native_candidates(home_of(env)) + path_candidates(env)
}

/// The text is a launcher script rather than the executable itself: it
/// names `codex.js` or starts with a line that runs node. Where `loose`
/// holds, a text that holds `import` counts too.
pub open spec fn is_wrapper(content: Seq<char>, loose: bool) -> bool {
    occurs_in(content, "codex.js"@) || begins_with(content, "#!/usr/bin/env node"@) || (loose
        && occurs_in(content, "import"@))
}

/// Whether the text is a launcher script rather than the executable itself.
pub fn is_wrapper_script(content: &str, loose: bool) -> (wrapper: bool)
    ensures
        wrapper == is_wrapper(content@, loose),
{
    let chars = chars_of(content);
    contains(&chars, &chars_of("codex.js")) || starts_with(&chars, &chars_of("#!/usr/bin/env node"))
        || (loose && contains(&chars, &chars_of("import")))
}

/// What is known of the place at position `at`: the probe made for it, or
/// that it does not exist where no probe was made.
pub open spec fn probe_at(probes: Seq<ProbeModel>, at: int) -> ProbeModel {
    if 0 <= at < probes.len() {
        probes[at]
    } else {
        ProbeModel { exists: false, content: None }
    }
}

/// The place is taken as soon as it is looked at.
pub open spec fn takes(candidate: CandidateModel, probe: ProbeModel) -> bool {
    probe.exists && match candidate.rule {
        ProbeRule::Plain => true,
        ProbeRule::Native => !(probe.content is Some && is_wrapper(probe.content->0, false)),
        ProbeRule::OnPath => !(probe.content is Some && is_wrapper(probe.content->0, true)),
    }
}

/// The place is kept for the case that no place is taken.
pub open spec fn keeps(candidate: CandidateModel, probe: ProbeModel) -> bool {
    probe.exists && candidate.rule == ProbeRule::OnPath && probe.content is Some && is_wrapper(
        probe.content->0,
        true,
    )
}

/// The place at position `at` is the one that is chosen: the first that is
/// taken, or, where none is taken, the first that is kept.
pub open spec fn is_choice(
    candidates: Seq<CandidateModel>,
    probes: Seq<ProbeModel>,
    at: int,
) -> bool {
    &&& 0 <= at < candidates.len()
    &&& {
        ||| {
            &&& takes(candidates[at], probe_at(probes, at))
            &&& forall|j: int| 0 <= j < at ==> !takes(#[trigger] candidates[j], probe_at(probes, j))
        }
        ||| {
            &&& keeps(candidates[at], probe_at(probes, at))
            &&& forall|j: int|
                0 <= j < candidates.len() ==> !takes(#[trigger] candidates[j], probe_at(probes, j))
            &&& forall|j: int| 0 <= j < at ==> !keeps(#[trigger] candidates[j], probe_at(probes, j))
        }
    }
}

/// No place is taken or kept.
pub open spec fn no_choice(candidates: Seq<CandidateModel>, probes: Seq<ProbeModel>) -> bool {
    forall|j: int|
        0 <= j < candidates.len() ==> !takes(#[trigger] candidates[j], probe_at(probes, j))
            && !keeps(candidates[j], probe_at(probes, j))
}

/// At most one place is the chosen one.
pub proof fn choice_is_unique(
    candidates: Seq<CandidateModel>,
    probes: Seq<ProbeModel>,
    a: int,
    b: int,
)
    requires
        is_choice(candidates, probes, a),
        is_choice(candidates, probes, b),
    ensures
        a == b,
        !no_choice(candidates, probes),
{
    assert(takes(candidates[a], probe_at(probes, a)) || keeps(candidates[a], probe_at(probes, a)));
    if a < b {
        assert(!takes(candidates[a], probe_at(probes, a)));
        assert(!keeps(candidates[a], probe_at(probes, a)));
    } else if b < a {
        assert(!takes(candidates[b], probe_at(probes, b)));
        assert(!keeps(candidates[b], probe_at(probes, b)));
    }
}

/// A list of one path part.
fn one_part(a: &str) -> (parts: Vec<String>)
    ensures
        text_views(parts@) == seq![a@],
{
    let mut parts: Vec<String> = Vec::new();
    parts.push(String::from_str(a));
    assert(text_views(parts@) =~= seq![a@]);
    parts
}

/// A list of two path parts.
fn two_parts(a: &str, b: &str) -> (parts: Vec<String>)
    ensures
        text_views(parts@) == seq![a@, b@],
{
    let mut parts: Vec<String> = Vec::new();
    parts.push(String::from_str(a));
    parts.push(String::from_str(b));
    assert(text_views(parts@) =~= seq![a@, b@]);
    parts
}

/// An empty list of path parts.
fn no_parts() -> (parts: Vec<String>)
    ensures
        text_views(parts@) == Seq::<Seq<char>>::empty(),
{
    let parts: Vec<String> = Vec::new();
    assert(text_views(parts@) =~= Seq::<Seq<char>>::empty());
    parts
}

/// Appends to `out` the places in the directory `dir` of the search path.
fn push_directory(out: &mut Vec<Candidate>, dir: &str, windows: bool)
    ensures
        candidate_views(final(out)@) == candidate_views(old(out)@) + directory_candidates(
            dir@,
            search_names(windows),
        ),
{
    let ghost names = search_names(windows);
    let ghost before = candidate_views(out@);
    if dir.unicode_len() == 0 {
        assert(before + Seq::<CandidateModel>::empty() =~= before);
        return ;
    }
    if windows {
        out.push(
            Candidate {
                root: String::from_str(dir),
                parts: one_part("codex.exe"),
                rule: ProbeRule::OnPath,
            },
        );
        out.push(
            Candidate {
                root: String::from_str(dir),
                parts: one_part("codex.cmd"),
                rule: ProbeRule::OnPath,
            },
        );
        out.push(
            Candidate {
                root: String::from_str(dir),
                parts: one_part("codex.ps1"),
                rule: ProbeRule::OnPath,
            },
        );
        out.push(
            Candidate { root: String::from_str(dir), parts: one_part("codex"), rule: ProbeRule::OnPath },
        );
        assert(candidate_views(out@) =~= before + directory_candidates(dir@, names));
    } else {
        out.push(
            Candidate { root: String::from_str(dir), parts: one_part("codex"), rule: ProbeRule::OnPath },
        );
        assert(candidate_views(out@) =~= before + directory_candidates(dir@, names));
    }
}

/// Appends to `out` the places on the search path `path`.
fn push_search_path(out: &mut Vec<Candidate>, path: &str, windows: bool)
    ensures
        candidate_views(final(out)@) == candidate_views(old(out)@) + search_candidates(
            pieces(path@, path_separator(windows)),
            search_names(windows),
        ),
{
    let sep = if windows {
        ';'
    } else {
        ':'
    };
    let chars = chars_of(path);
    let spans = split_spans(&chars, sep);
    let ghost dirs = pieces(path@, sep);
    let ghost names = search_names(windows);
    let ghost before = candidate_views(out@);
    let mut k: usize = 0;
    assert(dirs.take(0) =~= Seq::<Seq<char>>::empty());
    assert(before + search_candidates(dirs.take(0), names) =~= before);
    while k < spans.len()
        invariant
            k <= spans.len(),
            chars@ == path@,
            sep == path_separator(windows),
            dirs == pieces(path@, sep),
            names == search_names(windows),
            spans_of(spans@, chars@, sep),
            candidate_views(out@) == before + search_candidates(dirs.take(k as int), names),
        decreases spans.len() - k,
    {
        let span = spans[k];
        let dir = string_of(&chars, span.0, span.1);
        let ghost so_far = candidate_views(out@);
        push_directory(out, dir.as_str(), windows);
        proof {
            assert(dir@ == dirs[k as int]);
            assert(dirs.take(k as int + 1).drop_last() =~= dirs.take(k as int));
            assert(dirs.take(k as int + 1).last() == dirs[k as int]);
            assert(before + (search_candidates(dirs.take(k as int), names) + directory_candidates(
                dir@,
                names,
            )) =~= so_far + directory_candidates(dir@, names));
        }
        k += 1;
    }
    assert(dirs.take(k as int) =~= dirs);
}

/// Every place at which the executable is looked for, in the order of
/// preference.
pub fn candidate_paths(env: &DiscoveryEnv) -> (candidates: Vec<Candidate>)
    ensures
        candidate_views(candidates@) == candidates_of(env@),
{
    let home = home_for(env);
    let binary = get_platform_binary_name(env.os.as_str(), env.arch.as_str());
    let mut out: Vec<Candidate> = Vec::new();
    assert(candidate_views(out@) =~= Seq::<CandidateModel>::empty());
    match &env.codex_path {
        Some(path) => {
            out.push(Candidate { root: path.clone(), parts: no_parts(), rule: ProbeRule::Plain });
        },
        None => {},
    }
    assert(candidate_views(out@) =~= override_candidates(env@));
    out.push(
        Candidate {
            root: home.clone(),
            parts: two_parts(".bun/install/global/node_modules/@openai/codex/bin", binary),
            rule: ProbeRule::Plain,
        },
    );
    out.push(
        Candidate {
            root: home.clone(),
            parts: two_parts(".local/share/npm/lib/node_modules/@openai/codex/bin", binary),
            rule: ProbeRule::Plain,
        },
    );
    out.push(
        Candidate {
            root: String::from_str("/usr/local/lib/node_modules/@openai/codex/bin"),
            parts: one_part(binary),
            rule: ProbeRule::Plain,
        },
    );
    out.push(
        Candidate {
            root: String::from_str("/opt/homebrew/lib/node_modules/@openai/codex/bin"),
            parts: one_part(binary),
            rule: ProbeRule::Plain,
        },
    );
    assert(candidate_views(out@) =~= override_candidates(env@) + packaged_candidates(
        home_of(env@),
        binary_name(env@.os, env@.arch),
    ));
    if env.windows {
        match &env.app_data {
            Some(app_data) => {
                out.push(
                    Candidate {
                        root: app_data.clone(),
                        parts: two_parts("npm", "codex.cmd"),
                        rule: ProbeRule::Plain,
                    },
                );
                out.push(
                    Candidate {
                        root: app_data.clone(),
                        parts: two_parts("npm", "codex.ps1"),
                        rule: ProbeRule::Plain,
                    },
                );
                out.push(
                    Candidate {
                        root: app_data.clone(),
                        parts: two_parts("npm", "codex"),
                        rule: ProbeRule::Plain,
                    },
                );
            },
            None => {},
        }
    }
    assert(candidate_views(out@) =~= override_candidates(env@) + packaged_candidates(
        home_of(env@),
        binary_name(env@.os, env@.arch),
    ) + npm_candidates(env@));
    out.push(
        Candidate {
            root: home.clone(),
            parts: one_part(".cargo/bin/codex"),
            rule: ProbeRule::Native,
        },
    );
    out.push(
        Candidate {
            root: home.clone(),
            parts: one_part(".cargo/bin/codex.exe"),
            rule: ProbeRule::Native,
        },
    );
    out.push(
        Candidate {
            root: String::from_str("/usr/local/bin/codex"),
            parts: no_parts(),
            rule: ProbeRule::Native,
        },
    );
    out.push(
        Candidate {
            root: String::from_str("/opt/homebrew/bin/codex"),
            parts: no_parts(),
            rule: ProbeRule::Native,
        },
    );
    assert(candidate_views(out@) =~= override_candidates(env@) + packaged_candidates(
        home_of(env@),
        binary_name(env@.os, env@.arch),
    ) + npm_candidates(env@) + native_candidates(home_of(env@)));
    match &env.path {
        Some(path) => {
            push_search_path(&mut out, path.as_str(), env.windows);
        },
        None => {
            assert(candidate_views(out@) + Seq::<CandidateModel>::empty() =~= candidate_views(
                out@,
            ));
        },
    }
    out
}

/// Whether the place is taken as soon as it is looked at.
fn is_taken(candidate: &Candidate, probe: &PathProbe) -> (taken: bool)
    ensures
        taken == takes(candidate@, probe@),
{
    if !probe.exists {
        return false;
    }
    match candidate.rule {
        ProbeRule::Plain => true,
        ProbeRule::Native => match &probe.content {
            Some(content) => !is_wrapper_script(content.as_str(), false),
            None => true,
        },
        ProbeRule::OnPath => match &probe.content {
            Some(content) => !is_wrapper_script(content.as_str(), true),
            None => true,
        },
    }
}

/// Whether the place is kept for the case that no place is taken.
fn is_kept(candidate: &Candidate, probe: &PathProbe) -> (kept: bool)
    ensures
        kept == keeps(candidate@, probe@),
{
    if !probe.exists || candidate.rule != ProbeRule::OnPath {
        return false;
    }
    match &probe.content {
        Some(content) => is_wrapper_script(content.as_str(), true),
        None => false,
    }
}

/// Chooses among the places `candidates`, given what the disk holds at
/// each: `probes[i]` belongs to `candidates[i]`, and a place without a probe
/// counts as missing.
///
/// The choice is the first place that is taken; where none is taken, the
/// first launcher script found on the search path; where there is none
/// either, nothing.
pub fn choose_candidate(candidates: &Vec<Candidate>, probes: &Vec<PathProbe>) -> (choice: Option<
    usize,
>)
    ensures
        match choice {
            Some(at) => is_choice(candidate_views(candidates@), probe_views(probes@), at as int),
            None => no_choice(candidate_views(candidates@), probe_views(probes@)),
        },
{
    let ghost places = candidate_views(candidates@);
    let ghost found = probe_views(probes@);
    let mut kept: Option<usize> = None;
    let mut i: usize = 0;
    while i < candidates.len()
        invariant
            i <= candidates.len(),
            places == candidate_views(candidates@),
            found == probe_views(probes@),
            forall|j: int| 0 <= j < i ==> !takes(#[trigger] places[j], probe_at(found, j)),
            match kept {
                Some(at) => {
                    &&& at < i
                    &&& keeps(places[at as int], probe_at(found, at as int))
                    &&& forall|j: int|
                        0 <= j < at ==> !keeps(#[trigger] places[j], probe_at(found, j))
                },
                None => forall|j: int|
                    0 <= j < i ==> !keeps(#[trigger] places[j], probe_at(found, j)),
            },
        decreases candidates.len() - i,
    {
        if i < probes.len() {
            assert(probe_at(found, i as int) == probes[i as int]@);
            assert(places[i as int] == candidates[i as int]@);
            if is_taken(&candidates[i], &probes[i]) {
                return Some(i);
            }
            if kept.is_none() && is_kept(&candidates[i], &probes[i]) {
                kept = Some(i);
            }
        }
        i += 1;
    }
    kept
}

/// Finds the agent's executable: the place chosen among those that
/// [`candidate_paths`] lists for `env`, given what the disk holds at each.
pub fn discover_codex_command(env: &DiscoveryEnv, probes: &Vec<PathProbe>) -> (found: Option<
    Candidate,
>)
    ensures
        match found {
            Some(place) => exists|at: int|
                is_choice(candidates_of(env@), probe_views(probes@), at) && place@
                    == #[trigger] candidates_of(env@)[at],
            None => no_choice(candidates_of(env@), probe_views(probes@)),
        },
{
    let candidates = candidate_paths(env);
    match choose_candidate(&candidates, probes) {
        Some(at) => {
            let place = candidates[at].clone();
            assert(place@ == candidates_of(env@)[at as int]);
            Some(place)
        },
        None => None,
    }
}

} // verus!
