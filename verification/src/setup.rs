//! Decisions of the guided setup: which accessibility variables are added
//! to the environment file, how the user's answers are read, and what the
//! setup describes. Writing files and running commands are the caller's
//! part.

use vstd::prelude::*;
use crate::text::{
    chars_of, lines_of, lines, join, join_chars, split_chars, split_pieces, has_prefix, starts_with,
    has_substring, contains, trim_str, trim, to_lowercase, lowercase, str_eq, string_from_chars,
    concat, owned, lemma_split_pieces_nonempty, lemma_lines_of_joined, lemma_split_pieces_chars, strip_cr,
};

verus! {

/// The accessibility variables the setup makes sure are set, in order.
pub open spec fn env_vars() -> Seq<Seq<char>> {
    seq![
        "ACCESSIBILITY_ENABLED=1"@,
        "GTK_MODULES=gail:atk-bridge"@,
        "OOO_FORCE_DESKTOP=gnome"@,
        "GNOME_ACCESSIBILITY=1"@,
        "QT_ACCESSIBILITY=1"@,
        "QT_LINUX_ACCESSIBILITY_ALWAYS_ON=1"@,
    ]
}

/// The name of a `NAME=value` assignment: the text before the first `=`.
pub open spec fn key_of(var: Seq<char>) -> Seq<char> {
    split_pieces(var, '=')[0]
}

/// Whether some line starts with a prefix.
pub open spec fn some_line_starts(ls: Seq<Seq<char>>, prefix: Seq<char>) -> bool {
    exists|i: int| 0 <= i < ls.len() && starts_with(#[trigger] ls[i], prefix)
}

/// The lines after appending, in order, each variable whose name no line
/// (including those already appended) starts with.
pub open spec fn add_missing(ls: Seq<Seq<char>>, vars: Seq<Seq<char>>) -> Seq<Seq<char>>
    decreases vars.len(),
{
    if vars.len() == 0 {
        ls
    } else {
        let before = add_missing(ls, vars.drop_last());
        let v = vars.last();
        if some_line_starts(before, key_of(v)) {
            before
        } else {
            before.push(v)
        }
    }
}

/// The environment file after the setup: its lines, the missing
/// accessibility variables appended, joined with newlines.
pub open spec fn merged_environment(content: Seq<char>) -> Seq<char> {
    join(add_missing(lines(content), env_vars()), "\n"@)
}

fn any_line_starts(ls: &Vec<Vec<char>>, prefix: &Vec<char>) -> (r: bool)
    ensures
        r == some_line_starts(ls@.map_values(|l: Vec<char>| l@), prefix@),
{
    let ghost lv = ls@.map_values(|l: Vec<char>| l@);
    let mut i: usize = 0;
    while i < ls.len()
        invariant
            i <= ls@.len(),
            lv == ls@.map_values(|l: Vec<char>| l@),
            forall|j: int| 0 <= j < i ==> !starts_with(#[trigger] lv[j], prefix@),
        decreases ls@.len() - i,
    {
        if has_prefix(&ls[i], prefix) {
            assert(starts_with(lv[i as int], prefix@));
            return true;
        }
        i += 1;
    }
    false
}

/// The accessibility variables, as executable strings.
fn env_var_list() -> (r: Vec<&'static str>)
    ensures
        r@.map_values(|s: &str| s@) == env_vars(),
{
    let mut r: Vec<&'static str> = Vec::new();
    r.push("ACCESSIBILITY_ENABLED=1");
    r.push("GTK_MODULES=gail:atk-bridge");
    r.push("OOO_FORCE_DESKTOP=gnome");
    r.push("GNOME_ACCESSIBILITY=1");
    r.push("QT_ACCESSIBILITY=1");
    r.push("QT_LINUX_ACCESSIBILITY_ALWAYS_ON=1");
    assert(r@.map_values(|s: &str| s@) =~= env_vars());
    r
}

/// The new content of `/etc/environment` (see [`merged_environment`]).
pub fn merge_environment(content: &str) -> (r: String)
    ensures
        r@ == merged_environment(content@),
{
    let mut ls = lines_of(&chars_of(content));
    let vars = env_var_list();
    let ghost vs = env_vars();
    let ghost start = lines(content@);
    let mut k: usize = 0;
    while k < vars.len()
        invariant
            k <= vars@.len(),
            vars@.map_values(|s: &str| s@) == vs,
            vs == env_vars(),
            ls@.map_values(|l: Vec<char>| l@) == add_missing(start, vs.take(k as int)),
        decreases vars@.len() - k,
    {
        assert(vs.take(k + 1).drop_last() =~= vs.take(k as int));
        assert(vs.take(k + 1).last() == vars@[k as int]@);
        let var_chars = chars_of(vars[k]);
        let pieces = split_chars(&var_chars, '=');
        proof {
            lemma_split_pieces_nonempty(var_chars@, '=');
            assert(pieces@.map_values(|p: Vec<char>| p@)[0] == pieces@[0]@);
        }
        if !any_line_starts(&ls, &pieces[0]) {
            let ghost before = ls@.map_values(|l: Vec<char>| l@);
            ls.push(var_chars);
            assert(ls@.map_values(|l: Vec<char>| l@) =~= before.push(vars@[k as int]@));
        }
        k += 1;
    }
    assert(vs.take(vars@.len() as int) =~= vs);
    let newline = chars_of("\n");
    let joined = join_chars(&ls, &newline);
    string_from_chars(joined.as_slice())
}

proof fn lemma_add_missing_grows(ls: Seq<Seq<char>>, vars: Seq<Seq<char>>, prefix: Seq<char>)
    requires
        some_line_starts(ls, prefix),
    ensures
        some_line_starts(add_missing(ls, vars), prefix),
    decreases vars.len(),
{
    if vars.len() > 0 {
        lemma_add_missing_grows(ls, vars.drop_last(), prefix);
        let before = add_missing(ls, vars.drop_last());
        let i = choose|i: int| 0 <= i < before.len() && starts_with(#[trigger] before[i], prefix);
        if !some_line_starts(before, key_of(vars.last())) {
            assert(before.push(vars.last())[i] == before[i]);
        }
    }
}

/// After the setup every accessibility variable's name starts some line of
/// the environment file, whatever the file held before.
pub proof fn every_variable_is_set(ls: Seq<Seq<char>>, k: int)
    requires
        0 <= k < env_vars().len(),
    ensures
        some_line_starts(add_missing(ls, env_vars()), key_of(env_vars()[k])),
{
    let vs = env_vars();
    lemma_every_variable_is_set(ls, vs, k);
}

/// The setup never drops or reorders what the environment file held: its
/// lines come first, unchanged, and only accessibility variables follow.
pub proof fn existing_lines_are_kept(ls: Seq<Seq<char>>, vars: Seq<Seq<char>>)
    ensures
        add_missing(ls, vars).len() >= ls.len(),
        add_missing(ls, vars).take(ls.len() as int) == ls,
        forall|i: int|
            ls.len() <= i < add_missing(ls, vars).len() ==> vars.contains(
                #[trigger] add_missing(ls, vars)[i],
            ),
    decreases vars.len(),
{
    if vars.len() > 0 {
        let q = vars.drop_last();
        existing_lines_are_kept(ls, q);
        let before = add_missing(ls, q);
        let v = vars.last();
        if !some_line_starts(before, key_of(v)) {
            assert(before.push(v).take(ls.len() as int) =~= before.take(ls.len() as int));
        }
        assert forall|i: int| ls.len() <= i < add_missing(ls, vars).len() implies vars.contains(
            #[trigger] add_missing(ls, vars)[i],
        ) by {
            if i < before.len() {
                assert(add_missing(ls, vars)[i] == before[i]);
                let j = choose|j: int| 0 <= j < q.len() && q[j] == before[i];
                assert(vars[j] == q[j]);
            } else {
                assert(add_missing(ls, vars)[i] == v);
                assert(vars[vars.len() - 1] == v);
            }
        }
    }
}

proof fn lemma_add_missing_noop(ls: Seq<Seq<char>>, vars: Seq<Seq<char>>)
    requires
        forall|k: int| 0 <= k < vars.len() ==> some_line_starts(ls, key_of(#[trigger] vars[k])),
    ensures
        add_missing(ls, vars) == ls,
    decreases vars.len(),
{
    if vars.len() > 0 {
        let q = vars.drop_last();
        assert forall|k: int| 0 <= k < q.len() implies some_line_starts(ls, key_of(#[trigger] q[k])) by {
            assert(q[k] == vars[k]);
        }
        lemma_add_missing_noop(ls, q);
        assert(vars[vars.len() - 1] == vars.last());
    }
}

proof fn lemma_env_vars_plain()
    ensures
        forall|i: int|
            0 <= i < env_vars().len() ==> !(#[trigger] env_vars()[i]).contains('\n') && !env_vars()[i].contains(
                '\r',
            ) && env_vars()[i].len() > 0,
{
    reveal_strlit("ACCESSIBILITY_ENABLED=1");
    reveal_strlit("GTK_MODULES=gail:atk-bridge");
    reveal_strlit("OOO_FORCE_DESKTOP=gnome");
    reveal_strlit("GNOME_ACCESSIBILITY=1");
    reveal_strlit("QT_ACCESSIBILITY=1");
    reveal_strlit("QT_LINUX_ACCESSIBILITY_ALWAYS_ON=1");
    let vs = env_vars();
    assert forall|i: int| 0 <= i < vs.len() implies !(#[trigger] vs[i]).contains('\n') && !vs[i].contains(
        '\r',
    ) && vs[i].len() > 0 by {
        if vs[i].contains('\n') || vs[i].contains('\r') {
            let j = choose|j: int| 0 <= j < vs[i].len() && (vs[i][j] == '\n' || vs[i][j] == '\r');
            assert(false);
        }
    }
}

proof fn lemma_lines_plain(c: Seq<char>)
    requires
        !c.contains('\r'),
    ensures
        forall|i: int|
            0 <= i < lines(c).len() ==> !(#[trigger] lines(c)[i]).contains('\n') && !lines(c)[i].contains(
                '\r',
            ),
{
    let p = split_pieces(c, '\n');
    lemma_split_pieces_nonempty(c, '\n');
    lemma_split_pieces_chars(c, '\n');
    let ls = lines(c);
    assert forall|i: int| 0 <= i < ls.len() implies !(#[trigger] ls[i]).contains('\n') && !ls[i].contains(
        '\r',
    ) by {
        let piece = p[i];
        assert(ls[i] == piece || ls[i] == strip_cr(piece));
        assert(forall|j: int| 0 <= j < strip_cr(piece).len() ==> strip_cr(piece)[j] == piece[j]);
        if ls[i].contains('\n') || ls[i].contains('\r') {
            let j = choose|j: int| 0 <= j < ls[i].len() && (ls[i][j] == '\n' || ls[i][j] == '\r');
            assert(ls[i][j] == piece[j]);
            assert(piece[j] != '\n' && c.contains(piece[j]));
        }
    }
}

/// Running the setup a second time adds nothing to the environment file,
/// where the file holds no `'\r'` and its last line is not empty.
pub proof fn second_run_adds_nothing(c: Seq<char>)
    requires
        !c.contains('\r'),
        lines(c).len() > 0 ==> lines(c).last().len() > 0,
    ensures
        merged_environment(merged_environment(c)) == merged_environment(c),
{
    reveal_strlit("\n");
    assert("\n"@ =~= seq!['\n']);
    let ls = lines(c);
    let vs = env_vars();
    let all = add_missing(ls, vs);
    lemma_lines_plain(c);
    lemma_env_vars_plain();
    existing_lines_are_kept(ls, vs);
    assert forall|i: int| 0 <= i < all.len() implies !(#[trigger] all[i]).contains('\n') && !all[i].contains(
        '\r',
    ) by {
        if i < ls.len() {
            assert(all[i] == all.take(ls.len() as int)[i]);
        } else {
            let k = choose|k: int| 0 <= k < vs.len() && vs[k] == all[i];
        }
    }
    if all.len() > 0 {
        if all.len() > ls.len() {
            let k = choose|k: int| 0 <= k < vs.len() && vs[k] == all[all.len() - 1];
        } else {
            assert(all =~= all.take(ls.len() as int));
            assert(all.last() == ls.last());
        }
    }
    lemma_lines_of_joined(all);
    assert forall|k: int| 0 <= k < vs.len() implies some_line_starts(all, key_of(#[trigger] vs[k])) by {
        every_variable_is_set(ls, k);
    }
    lemma_add_missing_noop(all, vs);
}

proof fn lemma_every_variable_is_set(ls: Seq<Seq<char>>, vars: Seq<Seq<char>>, k: int)
    requires
        0 <= k < vars.len(),
    ensures
        some_line_starts(add_missing(ls, vars), key_of(vars[k])),
    decreases vars.len(),
{
    let q = vars.drop_last();
    let before = add_missing(ls, q);
    if k < vars.len() - 1 {
        assert(q[k] == vars[k]);
        lemma_every_variable_is_set(ls, q, k);
        let key = key_of(vars[k]);
        let i = choose|i: int| 0 <= i < before.len() && starts_with(#[trigger] before[i], key);
        if !some_line_starts(before, key_of(vars.last())) {
            assert(before.push(vars.last())[i] == before[i]);
        }
    } else {
        let v = vars.last();
        assert(vars[k] == v);
        if !some_line_starts(before, key_of(v)) {
            let after = before.push(v);
            lemma_split_pieces_key_prefix(v);
            assert(after[before.len() as int] == v);
        }
    }
}

proof fn lemma_split_pieces_key_prefix(v: Seq<char>)
    ensures
        starts_with(v, key_of(v)),
    decreases v.len(),
{
    lemma_first_piece_is_prefix(v, '=');
}

proof fn lemma_first_piece_is_prefix(s: Seq<char>, sep: char)
    ensures
        split_pieces(s, sep).len() >= 1,
        starts_with(s, split_pieces(s, sep)[0]),
    decreases s.len(),
{
    lemma_split_pieces_nonempty(s, sep);
    if s.len() > 0 {
        let q = s.drop_last();
        lemma_first_piece_is_prefix(q, sep);
        lemma_split_pieces_nonempty(q, sep);
        let p = split_pieces(q, sep);
        let first = p[0];
        assert(q.take(first.len() as int) == first);
        if s.last() == sep {
            assert(split_pieces(s, sep)[0] == first);
        } else if p.len() == 1 {
            assert(split_pieces(s, sep)[0] == first.push(s.last()));
            assert(first.len() == q.len()) by {
                lemma_single_piece_is_whole(q, sep);
            }
            assert(s.take(s.len() as int) =~= s);
            assert(q =~= first);
            assert(s =~= first.push(s.last()));
        } else {
            assert(split_pieces(s, sep)[0] == first);
        }
        assert(s.take(split_pieces(s, sep)[0].len() as int) =~= split_pieces(s, sep)[0]);
    } else {
        assert(s.take(0) =~= split_pieces(s, sep)[0]);
    }
}

proof fn lemma_single_piece_is_whole(s: Seq<char>, sep: char)
    requires
        split_pieces(s, sep).len() == 1,
    ensures
        split_pieces(s, sep)[0] == s,
    decreases s.len(),
{
    if s.len() > 0 {
        let q = s.drop_last();
        lemma_split_pieces_nonempty(q, sep);
        assert(s.last() != sep);
        assert(split_pieces(q, sep).len() == 1);
        lemma_single_piece_is_whole(q, sep);
        assert(s =~= q.push(s.last()));
    }
}

/// What the setup lists before asking to continue.
pub fn setup_descriptions() -> (r: Vec<&'static str>)
    ensures
        r@.map_values(|s: &str| s@) == seq![
            "Write accessibility environment variables to /etc/environment"@,
            "Load the uinput kernel module and ensure it loads on boot"@,
            "Create /etc/udev/rules.d/80-hints.rules granting input access to uinput"@,
            "Add the current user to the 'input' group"@,
            "Enable and start the hintsd user service"@,
        ],
{
    let mut r: Vec<&'static str> = Vec::new();
    r.push("Write accessibility environment variables to /etc/environment");
    r.push("Load the uinput kernel module and ensure it loads on boot");
    r.push("Create /etc/udev/rules.d/80-hints.rules granting input access to uinput");
    r.push("Add the current user to the 'input' group");
    r.push("Enable and start the hintsd user service");
    assert(r@.map_values(|s: &str| s@) =~= seq![
        "Write accessibility environment variables to /etc/environment"@,
        "Load the uinput kernel module and ensure it loads on boot"@,
        "Create /etc/udev/rules.d/80-hints.rules granting input access to uinput"@,
        "Add the current user to the 'input' group"@,
        "Enable and start the hintsd user service"@,
    ]);
    r
}

/// Whether the setup runs with root rights (`UID` is `0`).
pub fn is_root_user(uid: &str) -> (r: bool)
    ensures
        r == (uid@ == "0"@),
{
    str_eq(uid, "0")
}

/// Whether the session is GNOME on Wayland.
pub fn is_wayland_gnome(session_type: &str, desktop: &str) -> (r: bool)
    ensures
        r == (session_type@ == "wayland"@ && contains(desktop@, "GNOME"@)),
{
    str_eq(session_type, "wayland") && has_substring(&chars_of(desktop), &chars_of("GNOME"))
}

/// A typed answer, trimmed and lowercased.
pub open spec fn answer_of(input: Seq<char>) -> Seq<char> {
    lowercase(trim(input))
}

/// Whether a trimmed, lowercased answer is yes: `y` or `yes`, or nothing
/// at all where that is the default.
pub fn accepts_answer(answer: &str, empty_means_yes: bool) -> (r: bool)
    ensures
        r == (answer@ == "y"@ || answer@ == "yes"@ || (empty_means_yes && answer@.len() == 0)),
{
    (empty_means_yes && answer.is_empty()) || str_eq(answer, "y") || str_eq(answer, "yes")
}

/// Whether the answer to "continue? (Y/n)" is yes: empty, `y` or `yes`.
pub fn should_continue_answer(input: &str) -> (r: bool)
    ensures
        r == (answer_of(input@).len() == 0 || answer_of(input@) == "y"@ || answer_of(input@)
            == "yes"@),
{
    let trimmed = trim_str(input);
    let answer = to_lowercase(trimmed.as_str());
    accepts_answer(answer.as_str(), true)
}

/// Whether the answer to "reboot now? (y/N)" is yes: `y` or `yes`.
pub fn reboot_answer(input: &str) -> (r: bool)
    ensures
        r == (answer_of(input@) == "y"@ || answer_of(input@) == "yes"@),
{
    let trimmed = trim_str(input);
    let answer = to_lowercase(trimmed.as_str());
    accepts_answer(answer.as_str(), false)
}

/// The `--machine` argument that reaches a user's service manager.
pub fn user_machine(user: &str) -> (r: String)
    ensures
        r@ == user@ + "@.host"@,
{
    concat(user, "@.host")
}

/// The udev rule that lets the `input` group use `uinput`.
pub fn udev_rule() -> (r: String)
    ensures
        r@ == "KERNEL==\"uinput\", GROUP=\"input\", MODE:=\"0660\""@,
{
    owned("KERNEL==\"uinput\", GROUP=\"input\", MODE:=\"0660\"")
}

} // verus!
