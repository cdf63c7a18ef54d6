//! How Git is invoked for a repository: natively, or inside a WSL
//! distribution for repositories that live in one.

use vstd::prelude::*;

use crate::text::{
    ascii_lower_seq, ascii_lowercase, chars_of, has_prefix, join, join_chars,
    non_empty, non_empty_of, replace_char, replace_chars, slice_range, split, split_chars,
    starts_with_str, string_of, texts, trim, trim_end_char, trim_end_chars,
    ascii_lower, to_ascii_lower,
};

verus! {

/// What a finished command reported: whether it exited successfully, and its
/// standard output and error read as text.
pub struct CommandOutput {
    pub success: bool,
    pub stdout: String,
    pub stderr: String,
}

/// How Git runs for a repository.
#[derive(Debug, Clone, PartialEq, Eq)]
pub enum GitBackend {
    Native,
    Wsl { distro: String, linux_path: String },
}

/// The abstract value of a [`GitBackend`].
pub enum BackendView {
    Native,
    Wsl { distro: Seq<char>, linux_path: Seq<char> },
}

impl View for GitBackend {
    type V = BackendView;

    open spec fn view(&self) -> BackendView {
        match self {
            GitBackend::Native => BackendView::Native,
            GitBackend::Wsl { distro, linux_path } => BackendView::Wsl {
                distro: distro@,
                linux_path: linux_path@,
            },
        }
    }
}

/// The path with every `/` turned into `\`.
pub open spec fn backslashed(p: Seq<char>) -> Seq<char> {
    replace_char(p, '/', '\\')
}

/// The key under which a repository's backend choice is stored: backslashes
/// as separators, no trailing backslash, ASCII letters in lower case.
pub open spec fn normalized_key_spec(p: Seq<char>) -> Seq<char> {
    ascii_lower_seq(trim_end_char(backslashed(p), '\\'))
}

pub fn normalized_key(path: &str) -> (key: String)
    ensures
        key@ == normalized_key_spec(path@),
{
    let p = chars_of(path);
    let b = replace_chars(p.as_slice(), '/', '\\');
    let t = trim_end_chars(b.as_slice(), '\\');
    let l = ascii_lowercase(t.as_slice());
    string_of(l.as_slice())
}

/// A path in the `\\?\UNC\` form, rewritten to start with `\\`.
pub open spec fn without_unc_prefix(d: Seq<char>) -> Seq<char> {
    if has_prefix(d, "\\\\?\\UNC\\"@) {
        "\\\\"@ + d.skip("\\\\?\\UNC\\"@.len() as int)
    } else {
        d
    }
}

/// Which backend the path's own form asks for: a path under
/// `\\wsl.localhost\<distro>\` or `\\wsl$\<distro>\` runs Git in that
/// distribution, at the same path inside it; any other path runs natively.
pub open spec fn detect_backend_spec(p: Seq<char>) -> BackendView {
    let w = without_unc_prefix(backslashed(p));
    let lower = ascii_lower_seq(w);
    let prefix_len: int = if has_prefix(lower, "\\\\wsl.localhost\\"@) {
        "\\\\wsl.localhost\\"@.len() as int
    } else if has_prefix(lower, "\\\\wsl$\\"@) {
        "\\\\wsl$\\"@.len() as int
    } else {
        -1
    };
    let parts = non_empty(split(w.skip(prefix_len), '\\'));
    if prefix_len < 0 || parts.len() == 0 {
        BackendView::Native
    } else {
        BackendView::Wsl { distro: parts[0], linux_path: "/"@ + join(parts.drop_first(), "/"@) }
    }
}

pub fn detect_backend(path: &str) -> (b: GitBackend)
    ensures
        b@ == detect_backend_spec(path@),
{
    let p = chars_of(path);
    let d = replace_chars(p.as_slice(), '/', '\\');
    let w: Vec<char> = if starts_with_str(d.as_slice(), "\\\\?\\UNC\\") {
        let unc = chars_of("\\\\?\\UNC\\");
        let mut w = chars_of("\\\\");
        let rest = slice_range(d.as_slice(), unc.len(), d.len());
        w.extend_from_slice(rest.as_slice());
        assert(w@ =~= "\\\\"@ + d@.skip("\\\\?\\UNC\\"@.len() as int));
        w
    } else {
        d
    };
    assert(w@ == without_unc_prefix(backslashed(path@)));
    let lower = ascii_lowercase(w.as_slice());
    let prefix_len: usize = if starts_with_str(lower.as_slice(), "\\\\wsl.localhost\\") {
        chars_of("\\\\wsl.localhost\\").len()
    } else if starts_with_str(lower.as_slice(), "\\\\wsl$\\") {
        chars_of("\\\\wsl$\\").len()
    } else {
        return GitBackend::Native;
    };
    assert(prefix_len <= lower.len());
    let rest = slice_range(w.as_slice(), prefix_len, w.len());
    assert(rest@ =~= w@.skip(prefix_len as int));
    let pieces = split_chars(rest.as_slice(), '\\');
    let parts = non_empty_of(pieces);
    if parts.len() == 0 {
        return GitBackend::Native;
    }
    let distro = string_of(parts[0].as_slice());
    let tail = slice_vecs(&parts, 1);
    assert(texts(tail@) =~= texts(parts@).drop_first());
    assert(distro@ == texts(parts@)[0]);
    let slash = chars_of("/");
    let joined = join_chars(tail.as_slice(), slash.as_slice());
    let mut linux: Vec<char> = chars_of("/");
    linux.extend_from_slice(joined.as_slice());
    assert(linux@ =~= "/"@ + joined@);
    assert(w@.skip(prefix_len as int) == rest@);
    GitBackend::Wsl { distro, linux_path: string_of(linux.as_slice()) }
}

/// A copy of `v[from..]`.
fn slice_vecs(v: &Vec<Vec<char>>, from: usize) -> (out: Vec<Vec<char>>)
    requires
        from <= v.len(),
    ensures
        texts(out@) == texts(v@).skip(from as int),
{
    let mut out: Vec<Vec<char>> = Vec::new();
    let mut k = from;
    while k < v.len()
        invariant
            from <= k <= v.len(),
            texts(out@) == texts(v@).subrange(from as int, k as int),
        decreases v.len() - k,
    {
        let piece = slice_range(v[k].as_slice(), 0, v[k].len());
        assert(piece@ =~= v@[k as int]@);
        let ghost before = texts(out@);
        out.push(piece);
        assert(texts(out@) =~= before.push(v@[k as int]@));
        k += 1;
        assert(texts(out@) =~= texts(v@).subrange(from as int, k as int));
    }
    assert(texts(v@).subrange(from as int, v.len() as int) =~= texts(v@).skip(from as int));
    out
}


/// A Windows drive path (`C:\...` or `C:/...`) as WSL mounts it, or the
/// path inside the distribution for a WSL path.
pub open spec fn to_wsl_path_spec(p: Seq<char>) -> Option<Seq<char>> {
    match detect_backend_spec(p) {
        BackendView::Wsl { linux_path, .. } => Some(linux_path),
        BackendView::Native => {
            let d = replace_char(p, '\\', '/');
            if d.len() >= 3 && (d[0] as u32) < 128 && d[1] == ':' && d[2] == '/' {
                Some("/mnt/"@ + seq![ascii_lower(d[0])] + "/"@ + d.skip(3))
            } else {
                None
            }
        },
    }
}

pub fn to_wsl_path(path: &str) -> (r: Option<String>)
    ensures
        r matches Some(s) ==> to_wsl_path_spec(path@) == Some(s@),
        r is None ==> to_wsl_path_spec(path@) is None,
{
    match detect_backend(path) {
        GitBackend::Wsl { linux_path, .. } => {
            return Some(linux_path);
        },
        GitBackend::Native => {},
    }
    let p = chars_of(path);
    let d = replace_chars(p.as_slice(), '\\', '/');
    if d.len() >= 3 && (d[0] as u32) < 128 && d[1] == ':' && d[2] == '/' {
        let mut out = chars_of("/mnt/");
        out.push(to_ascii_lower(d[0]));
        let slash = chars_of("/");
        out.extend_from_slice(slash.as_slice());
        let rest = slice_range(d.as_slice(), 3, d.len());
        out.extend_from_slice(rest.as_slice());
        assert(out@ =~= "/mnt/"@ + seq![ascii_lower(d@[0])] + "/"@ + d@.skip(3));
        Some(string_of(out.as_slice()))
    } else {
        None
    }
}

pub open spec fn opt_text(o: Option<String>) -> Option<Seq<char>> {
    match o {
        Some(s) => Some(s@),
        None => None,
    }
}

pub open spec fn opt_str(o: Option<&str>) -> Option<Seq<char>> {
    match o {
        Some(s) => Some(s@),
        None => None,
    }
}

/// The choice stored for one repository: the backend's name and, for WSL,
/// the distribution.
pub type BackendChoice = (Seq<char>, Option<Seq<char>>);

/// The backend choices that the user made per repository, keyed by
/// [`normalized_key`]; a later choice for the same key replaces an earlier one.
pub struct BackendRegistry {
    entries: Vec<(String, String, Option<String>)>,
}

pub open spec fn registry_map(es: Seq<(String, String, Option<String>)>) -> Map<
    Seq<char>,
    BackendChoice,
>
    decreases es.len(),
{
    if es.len() == 0 {
        Map::empty()
    } else {
        registry_map(es.drop_last()).insert(es.last().0@, (es.last().1@, opt_text(es.last().2)))
    }
}

impl View for BackendRegistry {
    type V = Map<Seq<char>, BackendChoice>;

    closed spec fn view(&self) -> Map<Seq<char>, BackendChoice> {
        registry_map(self.entries@)
    }
}

proof fn lemma_registry_tail(es: Seq<(String, String, Option<String>)>, j: int, k: Seq<char>)
    requires
        0 <= j <= es.len(),
        forall|i: int| j <= i < es.len() ==> (#[trigger] es[i]).0@ != k,
    ensures
        registry_map(es).contains_key(k) == registry_map(es.take(j)).contains_key(k),
        registry_map(es).contains_key(k) ==> registry_map(es)[k] == registry_map(es.take(j))[k],
    decreases es.len() - j,
{
    if j < es.len() {
        let t = es.take(j + 1);
        assert(t.drop_last() =~= es.take(j));
        assert(t.last() == es[j]);
        lemma_registry_tail(es, j + 1, k);
        if j + 1 == es.len() {
            assert(t =~= es);
        } else {
            lemma_registry_tail_step(es, j + 1, k);
        }
    } else {
        assert(es.take(j) =~= es);
    }
}

proof fn lemma_registry_tail_step(es: Seq<(String, String, Option<String>)>, j: int, k: Seq<char>)
    requires
        0 <= j <= es.len(),
        forall|i: int| j <= i < es.len() ==> (#[trigger] es[i]).0@ != k,
    ensures
        registry_map(es).contains_key(k) == registry_map(es.take(j)).contains_key(k),
        registry_map(es).contains_key(k) ==> registry_map(es)[k] == registry_map(es.take(j))[k],
    decreases es.len() - j,
{
    if j < es.len() {
        lemma_registry_tail_step(es, j + 1, k);
        let t = es.take(j + 1);
        assert(t.drop_last() =~= es.take(j));
    } else {
        assert(es.take(j) =~= es);
    }
}

impl BackendRegistry {
    pub fn new() -> (r: Self)
        ensures
            r@ == Map::<Seq<char>, BackendChoice>::empty(),
    {
        BackendRegistry { entries: Vec::new() }
    }

    /// The stored choice for a key.
    pub fn lookup(&self, key: &String) -> (r: Option<(String, Option<String>)>)
        ensures
            r matches Some(c) ==> self@.contains_key(key@) && self@[key@] == (c.0@, opt_text(c.1)),
            r is None ==> !self@.contains_key(key@),
    {
        let mut j: usize = self.entries.len();
        while j > 0
            invariant
                j <= self.entries.len(),
                forall|i: int|
                    j <= i < self.entries@.len() ==> (#[trigger] self.entries@[i]).0@ != key@,
            decreases j,
        {
            if self.entries[j - 1].0 == *key {
                proof {
                    let es = self.entries@;
                    lemma_registry_tail(es, j as int, key@);
                    let t = es.take(j as int);
                    assert(t.drop_last() =~= es.take(j - 1));
                    assert(t.last() == es[j - 1]);
                }
                let e = &self.entries[j - 1];
                let distro = match &e.2 {
                    Some(d) => Some(d.clone()),
                    None => None,
                };
                return Some((e.1.clone(), distro));
            }
            j -= 1;
        }
        proof {
            lemma_registry_tail(self.entries@, 0, key@);
            assert(self.entries@.take(0) =~= seq![]);
        }
        None
    }
}

/// Records the backend that the user chose for a repository.
pub fn configure_repo_backend(
    registry: &mut BackendRegistry,
    path: &str,
    backend: &str,
    distro: Option<&str>,
)
    ensures
        final(registry)@ == old(registry)@.insert(
            normalized_key_spec(path@),
            (backend@, opt_str(distro)),
        ),
{
    let key = normalized_key(path);
    let d = match distro {
        Some(d) => Some(String::from_str(d)),
        None => None,
    };
    let ghost before = registry.entries@;
    registry.entries.push((key, String::from_str(backend), d));
    proof {
        assert(registry.entries@.drop_last() =~= before);
    }
}

/// The backend that a stored choice asks for: `native`, or `wsl` with a
/// distribution that is not blank and a path that WSL can reach.
pub open spec fn choice_backend(choice: BackendChoice, p: Seq<char>) -> Option<BackendView> {
    if choice.0 == "native"@ {
        Some(BackendView::Native)
    } else if choice.0 == "wsl"@ {
        match choice.1 {
            None => None,
            Some(d) => {
                let t = trim(d);
                if t.len() == 0 {
                    None
                } else {
                    match to_wsl_path_spec(p) {
                        Some(lp) => Some(BackendView::Wsl { distro: t, linux_path: lp }),
                        None => None,
                    }
                }
            },
        }
    } else {
        None
    }
}

/// The backend stored for the path's key, if it is usable.
pub open spec fn configured_backend_spec(m: Map<Seq<char>, BackendChoice>, p: Seq<char>) -> Option<
    BackendView,
> {
    let k = normalized_key_spec(p);
    if !m.contains_key(k) {
        None
    } else {
        choice_backend(m[k], p)
    }
}

pub open spec fn opt_backend(o: Option<GitBackend>) -> Option<BackendView> {
    match o {
        Some(b) => Some(b@),
        None => None,
    }
}

fn configured_backend(registry: &BackendRegistry, path: &str) -> (r: Option<GitBackend>)
    ensures
        opt_backend(r) == configured_backend_spec(registry@, path@),
{
    let key = normalized_key(path);
    let (backend, distro) = match registry.lookup(&key) {
        Some(c) => c,
        None => {
            return None;
        },
    };
    let b = chars_of(backend.as_str());
    if crate::text::chars_eq_str(b.as_slice(), "native") {
        return Some(GitBackend::Native);
    }
    if !crate::text::chars_eq_str(b.as_slice(), "wsl") {
        return None;
    }
    let d = match distro {
        Some(d) => d,
        None => {
            return None;
        },
    };
    let t = crate::text::trim_str(d.as_str());
    if t.len() == 0 {
        return None;
    }
    match to_wsl_path(path) {
        Some(linux_path) => Some(GitBackend::Wsl { distro: string_of(t.as_slice()), linux_path }),
        None => None,
    }
}

/// Runs Git for one repository.
pub struct GitRunner {
    backend: GitBackend,
    repo_path: String,
}

impl View for GitRunner {
    type V = (BackendView, Seq<char>);

    closed spec fn view(&self) -> (BackendView, Seq<char>) {
        (self.backend@, self.repo_path@)
    }
}

/// A command line to start: the program, its arguments, and the environment
/// variables to set for it.
pub struct GitInvocation {
    pub program: String,
    pub args: Vec<String>,
    pub envs: Vec<(String, String)>,
}

pub open spec fn strs(v: Seq<String>) -> Seq<Seq<char>> {
    v.map_values(|s: String| s@)
}

pub open spec fn env_pairs(v: Seq<(String, String)>) -> Seq<(Seq<char>, Seq<char>)> {
    v.map_values(|p: (String, String)| (p.0@, p.1@))
}

/// The arguments that come before Git's own arguments.
pub open spec fn invocation_prefix(b: BackendView, repo: Seq<char>) -> Seq<Seq<char>> {
    match b {
        BackendView::Native => seq!["-C"@, repo],
        BackendView::Wsl { distro, linux_path } => seq![
            "-d"@,
            distro,
            "--exec"@,
            "env"@,
            "GIT_TERMINAL_PROMPT=0"@,
            "GIT_EDITOR=true"@,
            "GIT_SEQUENCE_EDITOR=true"@,
            "GIT_MERGE_AUTOEDIT=no"@,
            "git"@,
            "-C"@,
            linux_path,
        ],
    }
}

/// Git never prompts, never opens an editor, and merges without editing
/// the message.
pub open spec fn native_envs() -> Seq<(Seq<char>, Seq<char>)> {
    seq![
        ("GIT_TERMINAL_PROMPT"@, "0"@),
        ("GIT_EDITOR"@, "true"@),
        ("GIT_SEQUENCE_EDITOR"@, "true"@),
        ("GIT_MERGE_AUTOEDIT"@, "no"@),
    ]
}

/// Appends an owned string to a list of arguments.
pub fn push_owned(v: &mut Vec<String>, s: String)
    ensures
        strs(final(v)@) == strs(old(v)@).push(s@),
{
    let ghost before = strs(v@);
    let ghost sv = s@;
    v.push(s);
    assert(strs(v@) =~= before.push(sv));
}

fn push_str(v: &mut Vec<String>, s: &str)
    ensures
        strs(final(v)@) == strs(old(v)@).push(s@),
{
    let ghost before = strs(v@);
    v.push(String::from_str(s));
    assert(strs(v@) =~= before.push(s@));
}

fn push_string(v: &mut Vec<String>, s: &String)
    ensures
        strs(final(v)@) == strs(old(v)@).push(s@),
{
    let ghost before = strs(v@);
    v.push(s.clone());
    assert(strs(v@) =~= before.push(s@));
}

fn push_env(v: &mut Vec<(String, String)>, k: &str, x: &str)
    ensures
        env_pairs(final(v)@) == env_pairs(old(v)@).push((k@, x@)),
{
    let ghost before = env_pairs(v@);
    v.push((String::from_str(k), String::from_str(x)));
    assert(env_pairs(v@) =~= before.push((k@, x@)));
}

impl GitRunner {
    /// The runner for a repository: the backend the user chose for it when
    /// that choice is usable, else the one its path asks for.
    pub fn for_repo(registry: &BackendRegistry, path: &str) -> (r: GitRunner)
        ensures
            r@.0 == (match configured_backend_spec(registry@, path@) {
                Some(b) => b,
                None => detect_backend_spec(path@),
            }),
            r@.1 == path@,
    {
        let backend = match configured_backend(registry, path) {
            Some(b) => b,
            None => detect_backend(path),
        };
        GitRunner { backend, repo_path: String::from_str(path) }
    }

    /// The command line that runs `git` with `args` in the repository.
    pub fn invocation(&self, args: &[String]) -> (inv: GitInvocation)
        ensures
            inv.program@ == (match self@.0 {
                BackendView::Native => "git"@,
                BackendView::Wsl { .. } => "wsl.exe"@,
            }),
            strs(inv.args@) == invocation_prefix(self@.0, self@.1) + strs(args@),
            env_pairs(inv.envs@) == (match self@.0 {
                BackendView::Native => native_envs(),
                BackendView::Wsl { .. } => seq![],
            }),
    {
        let mut a: Vec<String> = Vec::new();
        let mut envs: Vec<(String, String)> = Vec::new();
        let program;
        match &self.backend {
            GitBackend::Native => {
                program = String::from_str("git");
                push_str(&mut a, "-C");
                push_string(&mut a, &self.repo_path);
                push_env(&mut envs, "GIT_TERMINAL_PROMPT", "0");
                push_env(&mut envs, "GIT_EDITOR", "true");
                push_env(&mut envs, "GIT_SEQUENCE_EDITOR", "true");
                push_env(&mut envs, "GIT_MERGE_AUTOEDIT", "no");
            },
            GitBackend::Wsl { distro, linux_path } => {
                program = String::from_str("wsl.exe");
                push_str(&mut a, "-d");
                push_string(&mut a, distro);
                push_str(&mut a, "--exec");
                push_str(&mut a, "env");
                push_str(&mut a, "GIT_TERMINAL_PROMPT=0");
                push_str(&mut a, "GIT_EDITOR=true");
                push_str(&mut a, "GIT_SEQUENCE_EDITOR=true");
                push_str(&mut a, "GIT_MERGE_AUTOEDIT=no");
                push_str(&mut a, "git");
                push_str(&mut a, "-C");
                push_string(&mut a, linux_path);
            },
        }
        assert(strs(a@) =~= invocation_prefix(self@.0, self@.1));
        let mut i: usize = 0;
        while i < args.len()
            invariant
                i <= args.len(),
                strs(a@) == invocation_prefix(self@.0, self@.1) + strs(args@.take(i as int)),
            decreases args.len() - i,
        {
            push_string(&mut a, &args[i]);
            i += 1;
            assert(strs(args@.take(i as int)) =~= strs(args@.take(i - 1)).push(args@[i - 1]@));
            assert(strs(a@) =~= invocation_prefix(self@.0, self@.1) + strs(args@.take(i as int)));
        }
        assert(args@.take(i as int) =~= args@);
        proof {
            if self@.0 is Native {
                assert(env_pairs(envs@) =~= native_envs());
            } else {
                assert(env_pairs(envs@) =~= seq![]);
            }
        }
        GitInvocation { program, args: a, envs }
    }
}


/// A backend chosen for a repository applies to every spelling of its path
/// that has the same key, and leaves every other path as it was.
pub proof fn configured_choice_applies(
    m: Map<Seq<char>, BackendChoice>,
    p: Seq<char>,
    q: Seq<char>,
    backend: Seq<char>,
    distro: Option<Seq<char>>,
)
    ensures
        normalized_key_spec(p) == normalized_key_spec(q) ==> configured_backend_spec(
            m.insert(normalized_key_spec(p), (backend, distro)),
            q,
        ) == choice_backend((backend, distro), q),
        normalized_key_spec(p) != normalized_key_spec(q) ==> configured_backend_spec(
            m.insert(normalized_key_spec(p), (backend, distro)),
            q,
        ) == configured_backend_spec(m, q),
{
}

/// The backend a runner uses for a repository after a choice was recorded
/// for a path with the same key: that choice when it is usable, else the one
/// the path asks for; a choice recorded for a path with another key leaves
/// the runner as it was.
pub proof fn runner_follows_latest_choice(
    m: Map<Seq<char>, BackendChoice>,
    p: Seq<char>,
    q: Seq<char>,
    backend: Seq<char>,
    distro: Option<Seq<char>>,
)
    ensures
        ({
            let after = m.insert(normalized_key_spec(p), (backend, distro));
            let chosen = match configured_backend_spec(after, q) {
                Some(b) => b,
                None => detect_backend_spec(q),
            };
            &&& normalized_key_spec(p) == normalized_key_spec(q) ==> chosen == (match choice_backend(
                (backend, distro),
                q,
            ) {
                Some(b) => b,
                None => detect_backend_spec(q),
            })
            &&& normalized_key_spec(p) != normalized_key_spec(q) ==> chosen == (match configured_backend_spec(
                m,
                q,
            ) {
                Some(b) => b,
                None => detect_backend_spec(q),
            })
        }),
{
    configured_choice_applies(m, p, q, backend, distro);
}

/// A repository set to run Git natively does so, whatever its path looks like.
pub proof fn native_choice_runs_natively(
    m: Map<Seq<char>, BackendChoice>,
    p: Seq<char>,
    distro: Option<Seq<char>>,
)
    ensures
        configured_backend_spec(m.insert(normalized_key_spec(p), ("native"@, distro)), p) == Some(
            BackendView::Native,
        ),
{
}

/// Whether `wsl.exe -d <distro> --exec git --version` showed that Git runs in
/// the distribution: its trimmed error text, or a message naming the
/// distribution when there is none.
pub fn wsl_distro_result(out: &CommandOutput, distro: &str) -> (r: Result<(), String>)
    ensures
        r is Ok <==> out.success,
        r matches Err(e) ==> e@ == (if trim(out.stderr@).len() == 0 {
            "Could not run Git in WSL distribution '"@ + distro@ + "'"@
        } else {
            trim(out.stderr@)
        }),
{
    if out.success {
        return Ok(());
    }
    let t = crate::text::trim_str(out.stderr.as_str());
    if t.len() == 0 {
        Err(crate::text::concat3("Could not run Git in WSL distribution '", distro, "'"))
    } else {
        Err(string_of(t.as_slice()))
    }
}

} // verus!
