//! The script runner's decisions: splitting a command line into words, which
//! file names can hold a binary, how a script is to be run, and which
//! framework a command boots.

use vstd::prelude::*;
use crate::text::{is_prefix, starts_with, str_eq};

verus! {

/// The characters with the Unicode `White_Space` property.
pub open spec fn is_white(c: char) -> bool {
    let u = c as u32;
    (9 <= u <= 13) || u == 32 || u == 0x85 || u == 0xa0 || u == 0x1680 || (0x2000 <= u <= 0x200a)
        || u == 0x2028 || u == 0x2029 || u == 0x202f || u == 0x205f || u == 0x3000
}

fn white(c: char) -> (r: bool)
    ensures
        r == is_white(c),
{
    let u = c as u32;
    (9 <= u && u <= 13) || u == 32 || u == 0x85 || u == 0xa0 || u == 0x1680 || (0x2000 <= u && u <= 0x200a)
        || u == 0x2028 || u == 0x2029 || u == 0x202f || u == 0x205f || u == 0x3000
}

/// The words of `s` after a word `cur` already begun: maximal runs of
/// characters that are not white space.
pub open spec fn words_after(s: Seq<char>, cur: Seq<char>) -> Seq<Seq<char>>
    decreases s.len(),
{
    if s.len() == 0 {
        if cur.len() > 0 { seq![cur] } else { Seq::empty() }
    } else if is_white(s[0]) {
        let rest = words_after(s.drop_first(), Seq::empty());
        if cur.len() > 0 { seq![cur] + rest } else { rest }
    } else {
        words_after(s.drop_first(), cur.push(s[0]))
    }
}

/// The whitespace-separated words of `s`.
pub open spec fn words(s: Seq<char>) -> Seq<Seq<char>> {
    words_after(s, Seq::empty())
}

pub open spec fn string_views(v: Seq<String>) -> Seq<Seq<char>> {
    v.map_values(|w: String| w@)
}

/// Splits `s` at white space, dropping empty words.
pub fn split_words(s: &str) -> (r: Vec<String>)
    ensures
        string_views(r@) == words(s@),
{
    let n = s.unicode_len();
    let mut out: Vec<String> = Vec::new();
    let mut start: usize = 0;
    let mut i: usize = 0;
    assert(s@.subrange(0, n as int) =~= s@);
    assert(s@.subrange(0, 0) =~= Seq::<char>::empty());
    assert(string_views(out@) =~= Seq::<Seq<char>>::empty());
    assert(Seq::<Seq<char>>::empty() + words(s@) =~= words(s@));
    while i < n
        invariant
            n == s@.len(),
            start <= i <= n,
            string_views(out@) + words_after(s@.subrange(i as int, n as int), s@.subrange(start as int, i as int)) == words(s@),
        decreases n - i,
    {
        let c = s.get_char(i);
        let ghost t = s@.subrange(i as int, n as int);
        let ghost cur = s@.subrange(start as int, i as int);
        assert(t.drop_first() =~= s@.subrange(i + 1, n as int));
        assert(t[0] == c);
        if white(c) {
            if start < i {
                let w = String::from_str(s.substring_char(start, i));
                let ghost before = string_views(out@);
                out.push(w);
                assert(string_views(out@) =~= before.push(cur));
                assert(before + (seq![cur] + words_after(t.drop_first(), Seq::empty()))
                    =~= before.push(cur) + words_after(t.drop_first(), Seq::empty()));
            }
            start = i + 1;
            assert(s@.subrange(start as int, i + 1) =~= Seq::<char>::empty());
        } else {
            assert(s@.subrange(start as int, i + 1) =~= cur.push(c));
        }
        i = i + 1;
    }
    let ghost cur = s@.subrange(start as int, n as int);
    assert(s@.subrange(n as int, n as int) =~= Seq::<char>::empty());
    if start < n {
        let w = String::from_str(s.substring_char(start, n));
        let ghost before = string_views(out@);
        out.push(w);
        assert(string_views(out@) =~= before.push(cur));
        assert(before + seq![cur] =~= before.push(cur));
    } else {
        assert(string_views(out@) + Seq::<Seq<char>>::empty() =~= string_views(out@));
    }
    out
}

/// The file names under which a binary may be found: on Windows its name with
/// `.cmd`, `.exe` or `.bat`, or bare; elsewhere bare or with `.sh`.
pub open spec fn binary_file_names(name: Seq<char>, windows: bool) -> Seq<Seq<char>> {
    if windows {
        seq![name + ".cmd"@, name + ".exe"@, name + ".bat"@, name]
    } else {
        seq![name, name + ".sh"@]
    }
}

fn with_suffix(name: &str, suffix: &str) -> (r: String)
    ensures
        r@ == name@ + suffix@,
{
    let mut s = String::from_str(name);
    s.append(suffix);
    s
}

/// The candidate file names of a binary, in the order they are tried.
pub fn binary_candidates(name: &str, windows: bool) -> (r: Vec<String>)
    ensures
        string_views(r@) == binary_file_names(name@, windows),
{
    let mut v: Vec<String> = Vec::new();
    if windows {
        v.push(with_suffix(name, ".cmd"));
        v.push(with_suffix(name, ".exe"));
        v.push(with_suffix(name, ".bat"));
        v.push(String::from_str(name));
        assert(string_views(v@) =~= binary_file_names(name@, windows));
    } else {
        v.push(String::from_str(name));
        v.push(with_suffix(name, ".sh"));
        assert(string_views(v@) =~= binary_file_names(name@, windows));
    }
    v
}

/// Whether a file of this name holds the binary.
pub fn is_binary_file(file_name: &str, name: &str, windows: bool) -> (r: bool)
    ensures
        r == binary_file_names(name@, windows).contains(file_name@),
{
    let candidates = binary_candidates(name, windows);
    let mut i: usize = 0;
    while i < candidates.len()
        invariant
            i <= candidates@.len(),
            string_views(candidates@) == binary_file_names(name@, windows),
            forall|k: int| 0 <= k < i ==> candidates@[k]@ != file_name@,
        decreases candidates@.len() - i,
    {
        if str_eq(candidates[i].as_str(), file_name) {
            assert(string_views(candidates@)[i as int] == file_name@);
            return true;
        }
        i = i + 1;
    }
    proof {
        if binary_file_names(name@, windows).contains(file_name@) {
            let k = choose|k: int| 0 <= k < binary_file_names(name@, windows).len()
                && binary_file_names(name@, windows)[k] == file_name@;
            assert(string_views(candidates@)[k] == candidates@[k]@);
        }
    }
    false
}

/// Whether the search for a binary descends into a directory: every one but
/// nested `node_modules`.
pub fn searches_directory(dir_name: &str) -> (r: bool)
    ensures
        r == (dir_name@ != "node_modules"@),
{
    !str_eq(dir_name, "node_modules")
}

/// The framework a command boots and the colour of its name, by the command's start.
pub open spec fn framework_of(command: Seq<char>) -> Option<(Seq<char>, Seq<char>)> {
    if is_prefix("next"@, command) {
        Some(("Next.js"@, "nextjs_pink"@))
    } else if is_prefix("nuxt"@, command) {
        Some(("Nuxt"@, "green"@))
    } else if is_prefix("vite"@, command) {
        Some(("Vite"@, "yellow"@))
    } else if is_prefix("vue"@, command) {
        Some(("Vue"@, "green"@))
    } else if is_prefix("react-scripts"@, command) {
        Some(("Create React App"@, "cyan"@))
    } else if is_prefix("astro"@, command) {
        Some(("Astro"@, "orange"@))
    } else if is_prefix("svelte"@, command) {
        Some(("Svelte"@, "red"@))
    } else {
        None
    }
}

/// The framework a command boots, with the colour its name is shown in.
pub fn get_framework_info(command: &str) -> (r: Option<(&'static str, &'static str)>)
    ensures
        r is Some == framework_of(command@) is Some,
        r matches Some(p) ==> framework_of(command@) == Some((p.0@, p.1@)),
{
    if starts_with(command, "next") {
        Some(("Next.js", "nextjs_pink"))
    } else if starts_with(command, "nuxt") {
        Some(("Nuxt", "green"))
    } else if starts_with(command, "vite") {
        Some(("Vite", "yellow"))
    } else if starts_with(command, "vue") {
        Some(("Vue", "green"))
    } else if starts_with(command, "react-scripts") {
        Some(("Create React App", "cyan"))
    } else if starts_with(command, "astro") {
        Some(("Astro", "orange"))
    } else if starts_with(command, "svelte") {
        Some(("Svelte", "red"))
    } else {
        None
    }
}

/// How a task is to be run.
pub enum TaskPlan {
    /// The command has no words.
    Empty,
    /// Run the words as a system command; `not_a_script` is set where the
    /// manifest has scripts but none of this name.
    SystemCommand { words: Vec<String>, not_a_script: bool },
    /// The script of this name is not a string.
    NotAString,
    /// A shell built-in: the whole command goes through the shell.
    Shell { command: String },
    /// A binary to locate and run with its arguments.
    Binary { command: String, binary: String, args: Vec<String> },
}

pub open spec fn opt_string_view(o: Option<String>) -> Option<Seq<char>> {
    match o {
        Some(s) => Some(s@),
        None => None,
    }
}

/// The first script of the given name: `Some(None)` where its command is not a string.
pub open spec fn script_lookup(scripts: Seq<(String, Option<String>)>, name: Seq<char>) -> Option<Option<Seq<char>>>
    decreases scripts.len(),
{
    if scripts.len() == 0 {
        None
    } else if scripts[0].0@ == name {
        Some(opt_string_view(scripts[0].1))
    } else {
        script_lookup(scripts.drop_first(), name)
    }
}

/// Words that the shell runs itself.
pub open spec fn is_shell_builtin(w: Seq<char>) -> bool {
    w == "echo"@ || w == "cd"@ || w == "pwd"@
}

/// The plan for a system command made of the words of `line`.
pub open spec fn system_plan(line: Seq<char>, not_a_script: bool, p: TaskPlan) -> bool {
    if words(line).len() == 0 {
        p is Empty
    } else {
        p matches TaskPlan::SystemCommand { words: w, not_a_script: n } && string_views(w@) == words(line) && n == not_a_script
    }
}

/// The plan for the command of a script.
pub open spec fn script_plan(command: Seq<char>, p: TaskPlan) -> bool {
    let ws = words(command);
    if ws.len() == 0 {
        p is Empty
    } else if is_shell_builtin(ws[0]) {
        p matches TaskPlan::Shell { command: c } && c@ == command
    } else {
        p matches TaskPlan::Binary { command: c, binary, args }
            && c@ == command && binary@ == ws[0] && string_views(args@) == ws.drop_first()
    }
}

fn find_script(scripts: &Vec<(String, Option<String>)>, name: &str) -> (r: Option<usize>)
    ensures
        r is None ==> script_lookup(scripts@, name@) is None,
        r matches Some(i) ==> i < scripts@.len() && script_lookup(scripts@, name@) == Some(opt_string_view(scripts@[i as int].1)),
{
    let mut i: usize = 0;
    assert(scripts@.subrange(0, scripts@.len() as int) =~= scripts@);
    while i < scripts.len()
        invariant
            i <= scripts@.len(),
            script_lookup(scripts@, name@) == script_lookup(scripts@.subrange(i as int, scripts@.len() as int), name@),
        decreases scripts@.len() - i,
    {
        let ghost t = scripts@.subrange(i as int, scripts@.len() as int);
        assert(t[0] == scripts@[i as int]);
        assert(t.drop_first() =~= scripts@.subrange(i + 1, scripts@.len() as int));
        if str_eq(scripts[i].0.as_str(), name) {
            return Some(i);
        }
        i = i + 1;
    }
    None
}

fn plan_system(line: &str, not_a_script: bool) -> (r: TaskPlan)
    ensures
        system_plan(line@, not_a_script, r),
{
    let words = split_words(line);
    if words.len() == 0 {
        TaskPlan::Empty
    } else {
        TaskPlan::SystemCommand { words, not_a_script }
    }
}

/// Splits a script's command into the binary and its arguments, or sends a
/// shell built-in to the shell.
pub fn plan_script(command: &str) -> (r: TaskPlan)
    ensures
        script_plan(command@, r),
{
    let mut ws = split_words(command);
    if ws.len() == 0 {
        return TaskPlan::Empty;
    }
    let first = ws.remove(0);
    let ghost rest = ws@;
    assert(string_views(rest) =~= words(command@).drop_first());
    if str_eq(first.as_str(), "echo") || str_eq(first.as_str(), "cd") || str_eq(first.as_str(), "pwd") {
        TaskPlan::Shell { command: String::from_str(command) }
    } else {
        TaskPlan::Binary { command: String::from_str(command), binary: first, args: ws }
    }
}

/// Decides how to run a task: a script of that name if the manifest has one,
/// else the task's own words as a system command.
pub fn plan_task(scripts: &Option<Vec<(String, Option<String>)>>, task_name: &str) -> (r: TaskPlan)
    ensures
        scripts is None ==> system_plan(task_name@, false, r),
        scripts matches Some(list) ==> match script_lookup(list@, task_name@) {
            None => system_plan(task_name@, true, r),
            Some(None) => r is NotAString,
            Some(Some(command)) => script_plan(command, r),
        },
{
    match scripts {
        None => plan_system(task_name, false),
        Some(list) => match find_script(list, task_name) {
            None => plan_system(task_name, true),
            Some(i) => match &list[i].1 {
                None => TaskPlan::NotAString,
                Some(command) => plan_script(command.as_str()),
            },
        },
    }
}

} // verus!
