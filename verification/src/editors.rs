//! Code editors: which are installed, in what order they are listed, and
//! how one is launched on a file.

use vstd::prelude::*;

use crate::git::runner::{opt_str, opt_text, strs, CommandOutput};
use crate::git::text_lt;
use crate::order::{lemma_insert_at, sort_by};
use crate::text::{
    ascii_lower_seq, ascii_lowercase, chars_eq, chars_eq_str, chars_of, concat3, ends_with,
    has_prefix, has_suffix, i64_text, int_text, lines, lines_of, slice_range, starts_with_str,
    string_of, texts, trim, trim_chars,
};

verus! {

/// An editor found on this machine.
#[derive(Debug, Clone)]
pub struct DetectedEditor {
    pub name: String,
    pub command: String,
    pub detected_path: Option<String>,
}

pub struct EditorView {
    pub name: Seq<char>,
    pub command: Seq<char>,
    pub detected_path: Option<Seq<char>>,
}

impl View for DetectedEditor {
    type V = EditorView;

    open spec fn view(&self) -> EditorView {
        EditorView {
            name: self.name@,
            command: self.command@,
            detected_path: opt_text(self.detected_path),
        }
    }
}

/// Editors with a command-line launcher, by display name and command.
pub open spec fn cli_editor_table() -> Seq<(Seq<char>, Seq<char>)> {
    seq![
        ("VS Code"@, "code"@),
        ("Cursor"@, "cursor"@),
        ("Zed"@, "zed"@),
        ("Sublime Text"@, "subl"@),
        ("Neovim"@, "nvim"@),
        ("Vim"@, "vim"@),
    ]
}

/// Editors installed as macOS application bundles: display name, bundle
/// name, and the command that opens them.
pub open spec fn mac_app_editor_table() -> Seq<(Seq<char>, Seq<char>, Seq<char>)> {
    seq![
        ("VS Code"@, "Visual Studio Code"@, "open -a 'Visual Studio Code'"@),
        ("Cursor"@, "Cursor"@, "open -a Cursor"@),
        ("Zed"@, "Zed"@, "open -a Zed"@),
    ]
}

pub fn cli_editors() -> (t: Vec<(String, String)>)
    ensures
        t@.map_values(|e: (String, String)| (e.0@, e.1@)) == cli_editor_table(),
{
    let t = vec![
        (String::from_str("VS Code"), String::from_str("code")),
        (String::from_str("Cursor"), String::from_str("cursor")),
        (String::from_str("Zed"), String::from_str("zed")),
        (String::from_str("Sublime Text"), String::from_str("subl")),
        (String::from_str("Neovim"), String::from_str("nvim")),
        (String::from_str("Vim"), String::from_str("vim")),
    ];
    assert(t@.map_values(|e: (String, String)| (e.0@, e.1@)) =~= cli_editor_table());
    t
}

pub fn mac_app_editors() -> (t: Vec<(String, String, String)>)
    ensures
        t@.map_values(|e: (String, String, String)| (e.0@, e.1@, e.2@)) == mac_app_editor_table(),
{
    let t = vec![
        (
            String::from_str("VS Code"),
            String::from_str("Visual Studio Code"),
            String::from_str("open -a 'Visual Studio Code'"),
        ),
        (String::from_str("Cursor"), String::from_str("Cursor"), String::from_str("open -a Cursor")),
        (String::from_str("Zed"), String::from_str("Zed"), String::from_str("open -a Zed")),
    ];
    assert(t@.map_values(|e: (String, String, String)| (e.0@, e.1@, e.2@))
        =~= mac_app_editor_table());
    t
}

/// The listing order of editors: by name with ASCII letters lower-cased,
/// then by name as written.
pub open spec fn editor_before(a: EditorView, b: EditorView) -> bool {
    ||| text_lt(ascii_lower_seq(a.name), ascii_lower_seq(b.name))
    ||| (ascii_lower_seq(a.name) == ascii_lower_seq(b.name) && text_lt(a.name, b.name))
}

pub open spec fn editor_order() -> spec_fn(EditorView, EditorView) -> bool {
    |a: EditorView, b: EditorView| editor_before(a, b)
}

/// The `i`-th lookup result, when there is one.
pub open spec fn resolved_at(resolved: Seq<Option<String>>, i: int) -> Option<Seq<char>> {
    if 0 <= i < resolved.len() {
        opt_text(resolved[i])
    } else {
        None
    }
}

/// The editors found, in table order: command-line editors whose launcher was
/// found on the path.
pub open spec fn cli_found(resolved: Seq<Option<String>>, n: int) -> Seq<EditorView>
    decreases n,
{
    if n <= 0 {
        seq![]
    } else {
        let prev = cli_found(resolved, n - 1);
        match resolved_at(resolved, n - 1) {
            Some(p) => prev.push(
                EditorView {
                    name: cli_editor_table()[n - 1].0,
                    command: cli_editor_table()[n - 1].1,
                    detected_path: Some(p),
                },
            ),
            None => prev,
        }
    }
}

pub open spec fn names_of(es: Seq<EditorView>) -> Seq<Seq<char>> {
    es.map_values(|e: EditorView| e.name)
}

/// Then application bundles that are present, for editors not already found.
pub open spec fn app_found(prior: Seq<EditorView>, present: Seq<bool>, n: int) -> Seq<EditorView>
    decreases n,
{
    if n <= 0 {
        prior
    } else {
        let prev = app_found(prior, present, n - 1);
        let e = mac_app_editor_table()[n - 1];
        if n - 1 < present.len() && present[n - 1] && !names_of(prev).contains(e.0) {
            prev.push(
                EditorView {
                    name: e.0,
                    command: e.2,
                    detected_path: Some("/Applications/"@ + e.1 + ".app"@),
                },
            )
        } else {
            prev
        }
    }
}

/// All editors found, before sorting.
pub open spec fn found_editors(resolved: Seq<Option<String>>, present: Seq<bool>) -> Seq<EditorView> {
    app_found(cli_found(resolved, 6), present, 3)
}

pub open spec fn editor_views(v: Seq<DetectedEditor>) -> Seq<EditorView> {
    v.map_values(|e: DetectedEditor| e@)
}

fn name_in(v: &Vec<DetectedEditor>, name: &String) -> (r: bool)
    ensures
        r == names_of(editor_views(v@)).contains(name@),
{
    let mut i: usize = 0;
    while i < v.len()
        invariant
            i <= v.len(),
            forall|j: int| 0 <= j < i ==> v@[j].name@ != name@,
        decreases v.len() - i,
    {
        if v[i].name == *name {
            assert(names_of(editor_views(v@))[i as int] == name@);
            return true;
        }
        i += 1;
    }
    assert forall|j: int| 0 <= j < v.len() implies names_of(editor_views(v@))[j] != name@ by {
        assert(names_of(editor_views(v@))[j] == v@[j].name@);
    }
    false
}

fn chars_lt(a: &[char], b: &[char]) -> (r: bool)
    ensures
        r == text_lt(a@, b@),
{
    let mut i: usize = 0;
    assert(a@.skip(0) =~= a@ && b@.skip(0) =~= b@);
    while i < a.len() && i < b.len() && a[i] == b[i]
        invariant
            i <= a.len(),
            i <= b.len(),
            text_lt(a@, b@) == text_lt(a@.skip(i as int), b@.skip(i as int)),
        decreases a.len() - i,
    {
        assert(a@.skip(i as int).drop_first() =~= a@.skip(i + 1));
        assert(b@.skip(i as int).drop_first() =~= b@.skip(i + 1));
        i += 1;
    }
    if i == a.len() {
        i < b.len()
    } else if i == b.len() {
        false
    } else {
        (a[i] as u32) < (b[i] as u32)
    }
}

fn before(a: &DetectedEditor, b: &DetectedEditor) -> (r: bool)
    ensures
        r == editor_before(a@, b@),
{
    let an = chars_of(a.name.as_str());
    let bn = chars_of(b.name.as_str());
    let al = ascii_lowercase(an.as_slice());
    let bl = ascii_lowercase(bn.as_slice());
    chars_lt(al.as_slice(), bl.as_slice()) || (chars_eq(al.as_slice(), bl.as_slice()) && chars_lt(
        an.as_slice(),
        bn.as_slice(),
    ))
}

/// The editors found on this machine, in listing order. `resolved[i]` is
/// where the launcher of the `i`-th command-line editor was found, if it
/// was; `app_present[j]` tells whether the `j`-th application bundle is
/// installed (no bundles are looked for outside macOS).
pub fn detect(resolved: Vec<Option<String>>, app_present: Vec<bool>) -> (found: Vec<DetectedEditor>)
    ensures
        editor_views(found@) == sort_by(found_editors(resolved@, app_present@), editor_order()),
{
    let table = cli_editors();
    let mut found: Vec<DetectedEditor> = Vec::new();
    let mut i: usize = 0;
    assert(editor_views(found@) =~= cli_found(resolved@, 0));
    assert(table@.map_values(|e: (String, String)| (e.0@, e.1@)).len() == table@.len());
    assert(cli_editor_table().len() == 6);
    while i < table.len()
        invariant
            i <= table.len(),
            table.len() == 6,
            table@.map_values(|e: (String, String)| (e.0@, e.1@)) == cli_editor_table(),
            editor_views(found@) == cli_found(resolved@, i as int),
        decreases table.len() - i,
    {
        let ghost before = editor_views(found@);
        if i < resolved.len() {
            match &resolved[i] {
                Some(p) => {
                    assert(table@[i as int].0@ == cli_editor_table()[i as int].0);
                    found.push(
                        DetectedEditor {
                            name: table[i].0.clone(),
                            command: table[i].1.clone(),
                            detected_path: Some(p.clone()),
                        },
                    );
                    assert(editor_views(found@) =~= before.push(found@.last()@));
                },
                None => {},
            }
        }
        i += 1;
    }
    let apps = mac_app_editors();
    let mut j: usize = 0;
    let ghost cli = editor_views(found@);
    assert(app_found(cli, app_present@, 0) == cli);
    assert(apps@.map_values(|e: (String, String, String)| (e.0@, e.1@, e.2@)).len() == apps@.len());
    assert(mac_app_editor_table().len() == 3);
    while j < apps.len()
        invariant
            j <= apps.len(),
            apps.len() == 3,
            apps@.map_values(|e: (String, String, String)| (e.0@, e.1@, e.2@))
                == mac_app_editor_table(),
            cli == cli_found(resolved@, 6),
            editor_views(found@) == app_found(cli, app_present@, j as int),
        decreases apps.len() - j,
    {
        let ghost before = editor_views(found@);
        assert(apps@[j as int].0@ == mac_app_editor_table()[j as int].0);
        assert(apps@[j as int].1@ == mac_app_editor_table()[j as int].1);
        assert(apps@[j as int].2@ == mac_app_editor_table()[j as int].2);
        if j < app_present.len() && app_present[j] && !name_in(&found, &apps[j].0) {
            let path = concat3("/Applications/", apps[j].1.as_str(), ".app");
            found.push(
                DetectedEditor {
                    name: apps[j].0.clone(),
                    command: apps[j].2.clone(),
                    detected_path: Some(path),
                },
            );
            assert(editor_views(found@) =~= before.push(found@.last()@));
        }
        j += 1;
    }
    let ghost all = editor_views(found@);
    let mut sorted: Vec<DetectedEditor> = Vec::new();
    let mut k: usize = 0;
    assert(all.take(0) =~= seq![]);
    assert(editor_views(sorted@) =~= seq![]);
    while k < found.len()
        invariant
            k <= found.len(),
            all == editor_views(found@),
            editor_views(sorted@) == sort_by(all.take(k as int), editor_order()),
        decreases found.len() - k,
    {
        let x = found[k].clone_editor();
        let mut p: usize = 0;
        while p < sorted.len() && !before(&x, &sorted[p])
            invariant
                p <= sorted.len(),
                k < all.len(),
                x@ == all[k as int],
                forall|q: int| 0 <= q < p ==> !editor_before(x@, #[trigger] editor_views(sorted@)[q]),
            decreases sorted.len() - p,
        {
            assert(editor_views(sorted@)[p as int] == sorted@[p as int]@);
            p += 1;
        }
        proof {
            if p < sorted.len() {
                assert(editor_views(sorted@)[p as int] == sorted@[p as int]@);
            }
            lemma_insert_at(editor_views(sorted@), x@, editor_order(), p as int);
            assert(all.take(k + 1).drop_last() =~= all.take(k as int));
            assert(all.take(k + 1).last() == all[k as int]);
        }
        let ghost prev = editor_views(sorted@);
        sorted.insert(p, x);
        assert(editor_views(sorted@) =~= prev.insert(p as int, all[k as int]));
        k += 1;
    }
    assert(all.take(k as int) =~= all);
    sorted
}

impl DetectedEditor {
    /// A copy with the same fields.
    pub fn clone_editor(&self) -> (c: DetectedEditor)
        ensures
            c@ == self@,
    {
        DetectedEditor {
            name: self.name.clone(),
            command: self.command.clone(),
            detected_path: match &self.detected_path {
                Some(p) => Some(p.clone()),
                None => None,
            },
        }
    }
}

/// Where `which` (or `where` on Windows) found a launcher: the first line
/// of its output, trimmed, when it succeeded and that line is not blank.
pub open spec fn resolved_path(out: CommandOutput) -> Option<Seq<char>> {
    let ls = lines(out.stdout@);
    if !out.success || ls.len() == 0 || trim(ls[0]).len() == 0 {
        None
    } else {
        Some(trim(ls[0]))
    }
}

pub fn resolve_cli(out: &CommandOutput) -> (r: Option<String>)
    ensures
        opt_text(r) == resolved_path(*out),
{
    if !out.success {
        return None;
    }
    let cs = chars_of(out.stdout.as_str());
    let ls = lines_of(cs.as_slice());
    if ls.len() == 0 {
        return None;
    }
    assert(texts(ls@)[0] == ls@[0]@);
    let t = trim_chars(ls[0].as_slice());
    if t.len() == 0 {
        None
    } else {
        Some(string_of(t.as_slice()))
    }
}

/// The application named by an `open -a <App>` command, without the single
/// quotes around it.
pub open spec fn macos_app_name_spec(cmd: Seq<char>) -> Option<Seq<char>> {
    if !has_prefix(cmd, "open -a "@) {
        None
    } else {
        let a = trim(cmd.skip("open -a "@.len() as int));
        let inner = if a.len() >= 2 && a[0] == '\'' && a.last() == '\'' {
            a.subrange(1, a.len() - 1)
        } else {
            a
        };
        if inner.len() == 0 {
            None
        } else {
            Some(inner)
        }
    }
}

pub fn macos_app_name(editor_command: &str) -> (r: Option<String>)
    ensures
        opt_text(r) == macos_app_name_spec(editor_command@),
{
    let cmd = chars_of(editor_command);
    if !starts_with_str(cmd.as_slice(), "open -a ") {
        return None;
    }
    let plen = chars_of("open -a ").len();
    let rest = slice_range(cmd.as_slice(), plen, cmd.len());
    assert(rest@ =~= editor_command@.skip("open -a "@.len() as int));
    let a = trim_chars(rest.as_slice());
    let inner = if a.len() >= 2 && a[0] == '\'' && a[a.len() - 1] == '\'' {
        slice_range(a.as_slice(), 1, a.len() - 1)
    } else {
        a
    };
    if inner.len() == 0 {
        None
    } else {
        Some(string_of(inner.as_slice()))
    }
}

/// Editors with a window of their own, which are started without waiting.
pub open spec fn is_gui_command(cmd: Seq<char>) -> bool {
    cmd == "code"@ || cmd == "cursor"@ || cmd == "zed"@ || cmd == "subl"@
}

pub fn is_gui_editor(editor_command: &str) -> (r: bool)
    ensures
        r == is_gui_command(editor_command@),
{
    let c = chars_of(editor_command);
    chars_eq_str(c.as_slice(), "code") || chars_eq_str(c.as_slice(), "cursor") || chars_eq_str(
        c.as_slice(),
        "zed",
    ) || chars_eq_str(c.as_slice(), "subl")
}

/// A detected path that can be started directly: not a `.cmd` or `.bat`
/// script (compared without regard to ASCII case).
pub open spec fn direct_path(detected: Option<Seq<char>>) -> Option<Seq<char>> {
    match detected {
        Some(p) => if has_suffix(ascii_lower_seq(p), ".cmd"@) || has_suffix(
            ascii_lower_seq(p),
            ".bat"@,
        ) {
            None
        } else {
            Some(p)
        },
        None => None,
    }
}

pub fn direct_executable(detected_path: Option<&str>) -> (r: Option<String>)
    ensures
        opt_text(r) == direct_path(opt_str(detected_path)),
{
    match detected_path {
        None => None,
        Some(p) => {
            let pc = chars_of(p);
            let lower = ascii_lowercase(pc.as_slice());
            let cmd = chars_of(".cmd");
            let bat = chars_of(".bat");
            if ends_with(lower.as_slice(), cmd.as_slice()) || ends_with(
                lower.as_slice(),
                bat.as_slice(),
            ) {
                None
            } else {
                Some(String::from_str(p))
            }
        },
    }
}

/// How an editor is started on a file or folder.
pub struct LaunchPlan {
    pub program: String,
    pub args: Vec<String>,
    /// Started without waiting for it to exit.
    pub gui: bool,
}

/// The program that starts an editor that is not a macOS application: a
/// detected path that can be started directly, else the command found on
/// the search path, else the command itself.
pub open spec fn launch_program(
    editor_command: Seq<char>,
    detected: Option<Seq<char>>,
    resolved: Option<Seq<char>>,
) -> Seq<char> {
    match direct_path(detected) {
        Some(p) => p,
        None => match resolved {
            Some(r) => r,
            None => editor_command,
        },
    }
}

/// Plans starting `editor_command` on `target`. An `open -a <App>` command
/// opens the target with that application, without waiting; another
/// command is run with the target as its one argument, without waiting
/// only for editors with a window of their own. `resolved` is where the
/// search path finds the command, looked up when the detected path cannot
/// be started directly.
pub fn launch_plan(
    editor_command: &str,
    detected_path: Option<&str>,
    resolved: Option<String>,
    target: &str,
) -> (p: LaunchPlan)
    ensures
        macos_app_name_spec(editor_command@) matches Some(app) ==> {
            &&& p.program@ == "open"@
            &&& strs(p.args@) == seq!["-a"@, app, "--"@, target@]
            &&& p.gui
        },
        macos_app_name_spec(editor_command@) is None ==> {
            &&& p.program@ == launch_program(editor_command@, opt_str(detected_path), opt_text(resolved))
            &&& strs(p.args@) == seq![target@]
            &&& p.gui == is_gui_command(editor_command@)
        },
{
    match macos_app_name(editor_command) {
        Some(app) => {
            let ghost a = app@;
            let mut args: Vec<String> = Vec::new();
            args.push(String::from_str("-a"));
            args.push(app);
            args.push(String::from_str("--"));
            args.push(String::from_str(target));
            assert(strs(args@) =~= seq!["-a"@, a, "--"@, target@]);
            LaunchPlan { program: String::from_str("open"), args, gui: true }
        },
        None => {
            let program = match direct_executable(detected_path) {
                Some(p) => p,
                None => match resolved {
                    Some(r) => r,
                    None => String::from_str(editor_command),
                },
            };
            let mut args: Vec<String> = Vec::new();
            args.push(String::from_str(target));
            assert(strs(args@) =~= seq![target@]);
            LaunchPlan { program, args, gui: is_gui_editor(editor_command) }
        },
    }
}

/// The error for an editor that exited unsuccessfully; `-1` stands for an
/// exit without a status code.
pub fn editor_exit_error(code: Option<i32>) -> (e: String)
    ensures
        e@ == "Editor exited with status "@ + int_text(
            match code {
                Some(c) => c as int,
                None => -1,
            },
        ),
{
    let c: i64 = match code {
        Some(c) => c as i64,
        None => -1,
    };
    let t = i64_text(c);
    let mut e = String::from_str("Editor exited with status ");
    e.append(t.as_str());
    e
}


proof fn lemma_editor_order_strict()
    ensures
        crate::order::strict_order(editor_order()),
{
    crate::git::text_order_is_strict();
}

/// Detected editors are listed alphabetically (ignoring ASCII case, then by
/// name as written), and every editor found is listed.
pub proof fn detected_editors_are_sorted(resolved: Seq<Option<String>>, present: Seq<bool>)
    ensures
        crate::order::sorted_by(
            sort_by(found_editors(resolved, present), editor_order()),
            editor_order(),
        ),
        sort_by(found_editors(resolved, present), editor_order()).to_multiset()
            == found_editors(resolved, present).to_multiset(),
{
    lemma_editor_order_strict();
    crate::order::lemma_sort_sorted(found_editors(resolved, present), editor_order());
    crate::order::lemma_sort_permutes(found_editors(resolved, present), editor_order());
}

} // verus!
