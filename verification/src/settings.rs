//! The settings store.
//!
//! A configuration file is a flat sequence of text lines. A line that
//! contains `=` assigns the trimmed text left of the first `=` as a key; the
//! text right of it, trimmed and with one matched layer of surrounding
//! double quotes stripped, is the value. Loading collects the last assigned
//! value of each recognized key; every other line is opaque. Saving re-reads
//! the current lines and, for each recognized key that is set in the record,
//! replaces the first line that literally opens with `KEY=`, or appends a
//! fresh `KEY=value` line; unset keys leave the lines untouched.

use vstd::prelude::*;
use vstd::pervasive::VecAdditionalExecFns;
use crate::text::{
    first_of,
    spec_trim,
    spec_unquote,
    spec_has_prefix,
    trim,
    unquote,
    str_eq,
    has_prefix,
    find_first,
};
use crate::lines::{spec_lines, spec_render, split_lines, render_lines};

verus! {

/// The settings record: each recognized key either carries a value or is
/// absent. An unset key is represented as `None`, never as an empty string.
pub struct EnvSettings {
    pub beeminder_username: Option<String>,
    pub beeminder_goal: Option<String>,
    pub beeminder_token: Option<String>,
}

/// The mathematical view of a settings record.
pub struct SettingsView {
    pub username: Option<Seq<char>>,
    pub goal: Option<Seq<char>>,
    pub token: Option<Seq<char>>,
}

impl View for EnvSettings {
    type V = SettingsView;

    open spec fn view(&self) -> SettingsView {
        SettingsView {
            username: self.beeminder_username.deep_view(),
            goal: self.beeminder_goal.deep_view(),
            token: self.beeminder_token.deep_view(),
        }
    }
}

/// The record with every recognized key unset.
pub open spec fn empty_settings() -> SettingsView {
    SettingsView { username: None, goal: None, token: None }
}

pub open spec fn username_key() -> Seq<char> {
    "BEEMINDER_USERNAME"@
}

pub open spec fn goal_key() -> Seq<char> {
    "BEEMINDER_GOAL"@
}

pub open spec fn token_key() -> Seq<char> {
    "BEEMINDER_TOKEN"@
}

/// The line carries an assignment: it contains `=`.
pub open spec fn has_assign(line: Seq<char>) -> bool {
    first_of(line, '=') < line.len()
}

/// The key of an assignment line: left of the first `=`, trimmed.
pub open spec fn line_key(line: Seq<char>) -> Seq<char> {
    spec_trim(line.take(first_of(line, '=') as int))
}

/// The value of an assignment line: right of the first `=`, trimmed, with
/// one matched layer of surrounding double quotes stripped.
pub open spec fn line_value(line: Seq<char>) -> Seq<char> {
    spec_unquote(spec_trim(line.skip(first_of(line, '=') as int + 1)))
}

/// The line assigns to `key` when loading.
pub open spec fn assigns(line: Seq<char>, key: Seq<char>) -> bool {
    has_assign(line) && line_key(line) == key
}

/// The value the lines give `key`: that of the last assigning line, or
/// `None` when no line assigns to it.
pub open spec fn spec_scan(ls: Seq<Seq<char>>, key: Seq<char>) -> Option<Seq<char>>
    decreases ls.len(),
{
    if ls.len() == 0 {
        None
    } else if assigns(ls.last(), key) {
        Some(line_value(ls.last()))
    } else {
        spec_scan(ls.drop_last(), key)
    }
}

/// The record that loading a line sequence produces.
pub open spec fn spec_load_lines(ls: Seq<Seq<char>>) -> SettingsView {
    SettingsView {
        username: spec_scan(ls, username_key()),
        goal: spec_scan(ls, goal_key()),
        token: spec_scan(ls, token_key()),
    }
}

/// The record that loading file content produces.
pub open spec fn spec_load(content: Seq<char>) -> SettingsView {
    spec_load_lines(spec_lines(content))
}

/// The three recognized keys are pairwise distinct, and each differs from
/// the others within their common length.
pub proof fn lemma_keys_distinct()
    ensures
        username_key().len() == 18,
        goal_key().len() == 14,
        token_key().len() == 15,
        username_key()[10] == 'U',
        goal_key()[10] == 'G',
        token_key()[10] == 'T',
        username_key() != goal_key(),
        username_key() != token_key(),
        goal_key() != token_key(),
{
    reveal_strlit("BEEMINDER_USERNAME");
    reveal_strlit("BEEMINDER_GOAL");
    reveal_strlit("BEEMINDER_TOKEN");
}

/// Load a settings record from file content. Absent content (a missing or
/// unreadable file) is a valid state and yields the empty record.
pub fn load_settings(content: Option<&str>) -> (r: EnvSettings)
    ensures
        content matches Some(c) ==> r@ == spec_load(c@),
        content is None ==> r@ == empty_settings(),
{
    let mut r = EnvSettings {
        beeminder_username: None,
        beeminder_goal: None,
        beeminder_token: None,
    };
    let c = match content {
        Some(c) => c,
        None => {
            return r;
        },
    };
    let lines = split_lines(c);
    let ghost dv = lines.deep_view();
    let mut k: usize = 0;
    proof {
        assert(dv.take(0) =~= Seq::<Seq<char>>::empty());
    }
    while k < lines.len()
        invariant
            0 <= k <= lines.len(),
            dv == lines.deep_view(),
            dv.len() == lines.len(),
            dv == spec_lines(c@),
            r@.username == spec_scan(dv.take(k as int), username_key()),
            r@.goal == spec_scan(dv.take(k as int), goal_key()),
            r@.token == spec_scan(dv.take(k as int), token_key()),
        decreases lines.len() - k,
    {
        let line = &lines[k];
        let ghost lv = dv[k as int];
        let n = line.as_str().unicode_len();
        let eq = find_first(line.as_str(), '=');
        if eq < n {
            let keypart = trim(line.as_str().substring_char(0, eq));
            proof {
                assert(lv.take(eq as int) =~= lv.subrange(0, eq as int));
                assert(keypart@ == line_key(lv));
            }
            let is_user = str_eq(keypart.as_str(), "BEEMINDER_USERNAME");
            let is_goal = str_eq(keypart.as_str(), "BEEMINDER_GOAL");
            let is_token = str_eq(keypart.as_str(), "BEEMINDER_TOKEN");
            if is_user || is_goal || is_token {
                let v = unquote(trim(line.as_str().substring_char(eq + 1, n)).as_str());
                proof {
                    assert(lv.skip(eq as int + 1) =~= lv.subrange(eq as int + 1, n as int));
                    assert(v@ == line_value(lv));
                    lemma_keys_distinct();
                }
                if is_user {
                    r.beeminder_username = Some(v);
                } else if is_goal {
                    r.beeminder_goal = Some(v);
                } else {
                    r.beeminder_token = Some(v);
                }
            }
        }
        proof {
            let step = dv.take(k as int + 1);
            assert(step.last() == dv[k as int]);
            assert(step.drop_last() =~= dv.take(k as int));
        }
        k = k + 1;
    }
    proof {
        assert(dv.take(dv.len() as int) =~= dv);
    }
    r
}

/// A line that the save path treats as holding `key`: it opens with the
/// characters of `key` followed immediately by `=`.
pub open spec fn starts_key(line: Seq<char>, key: Seq<char>) -> bool {
    spec_has_prefix(line, key.push('='))
}

/// A fresh assignment line `key=value`.
pub open spec fn assign_line(key: Seq<char>, value: Seq<char>) -> Seq<char> {
    key.push('=') + value
}

/// The lines after setting `key` to `value`: the first line that opens with
/// `key=` is replaced by `key=value`; when none does, `key=value` is
/// appended.
pub open spec fn spec_set_line(ls: Seq<Seq<char>>, key: Seq<char>, value: Seq<char>) -> Seq<
    Seq<char>,
>
    decreases ls.len(),
{
    if ls.len() == 0 {
        seq![assign_line(key, value)]
    } else if starts_key(ls[0], key) {
        seq![assign_line(key, value)] + ls.skip(1)
    } else {
        seq![ls[0]] + spec_set_line(ls.skip(1), key, value)
    }
}

/// The lines after applying a record: each set key is written in the order
/// username, goal, token; unset keys change nothing.
pub open spec fn spec_apply(ls: Seq<Seq<char>>, sv: SettingsView) -> Seq<Seq<char>> {
    let l1 = match sv.username {
        Some(v) => spec_set_line(ls, username_key(), v),
        None => ls,
    };
    let l2 = match sv.goal {
        Some(v) => spec_set_line(l1, goal_key(), v),
        None => l1,
    };
    match sv.token {
        Some(v) => spec_set_line(l2, token_key(), v),
        None => l2,
    }
}

/// The file content that saving a record over existing content produces.
pub open spec fn spec_save(sv: SettingsView, content: Seq<char>) -> Seq<char> {
    spec_render(spec_apply(spec_lines(content), sv))
}

/// When the first line opening with `key=` stands at `i`, setting the key
/// replaces exactly that line.
pub proof fn lemma_set_line_replace(ls: Seq<Seq<char>>, key: Seq<char>, value: Seq<char>, i: int)
    requires
        0 <= i < ls.len(),
        starts_key(ls[i], key),
        forall|j: int| 0 <= j < i ==> !starts_key(ls[j], key),
    ensures
        spec_set_line(ls, key, value) == ls.update(i, assign_line(key, value)),
    decreases i,
{
    if i == 0 {
        assert(seq![assign_line(key, value)] + ls.skip(1) =~= ls.update(
            0,
            assign_line(key, value),
        ));
    } else {
        assert(!starts_key(ls[0], key));
        let tail = ls.skip(1);
        assert(tail[i - 1] == ls[i]);
        assert forall|j: int| 0 <= j < i - 1 implies !starts_key(tail[j], key) by {
            assert(tail[j] == ls[j + 1]);
        }
        lemma_set_line_replace(tail, key, value, i - 1);
        assert(seq![ls[0]] + tail.update(i - 1, assign_line(key, value)) =~= ls.update(
            i,
            assign_line(key, value),
        ));
    }
}

/// When no line opens with `key=`, setting the key appends a fresh line.
pub proof fn lemma_set_line_append(ls: Seq<Seq<char>>, key: Seq<char>, value: Seq<char>)
    requires
        forall|j: int| 0 <= j < ls.len() ==> !starts_key(ls[j], key),
    ensures
        spec_set_line(ls, key, value) == ls.push(assign_line(key, value)),
    decreases ls.len(),
{
    if ls.len() == 0 {
        assert(seq![assign_line(key, value)] =~= ls.push(assign_line(key, value)));
    } else {
        let tail = ls.skip(1);
        assert forall|j: int| 0 <= j < tail.len() implies !starts_key(tail[j], key) by {
            assert(tail[j] == ls[j + 1]);
        }
        lemma_set_line_append(tail, key, value);
        assert(seq![ls[0]] + tail.push(assign_line(key, value)) =~= ls.push(
            assign_line(key, value),
        ));
    }
}

/// Set `key` to `value` among the raw lines: replace the first line that
/// opens with `key=`, or append `key=value` when none does.
fn set_line(lines: &mut Vec<String>, key: &str, value: &str)
    ensures
        final(lines).deep_view() == spec_set_line(old(lines).deep_view(), key@, value@),
{
    let ghost dv = lines.deep_view();
    let prefix = String::from_str(key).concat("=");
    let fresh = String::from_str(key).concat("=").concat(value);
    proof {
        reveal_strlit("=");
        assert(prefix@ =~= key@.push('='));
        assert(fresh@ =~= assign_line(key@, value@));
    }
    let mut i: usize = 0;
    while i < lines.len()
        invariant
            0 <= i <= lines.len(),
            dv == lines.deep_view(),
            dv == old(lines).deep_view(),
            dv.len() == lines.len(),
            prefix@ == key@.push('='),
            fresh@ == assign_line(key@, value@),
            forall|j: int| 0 <= j < i ==> !starts_key(dv[j], key@),
        decreases lines.len() - i,
    {
        if has_prefix(lines[i].as_str(), prefix.as_str()) {
            proof {
                lemma_set_line_replace(dv, key@, value@, i as int);
            }
            let ghost fv = fresh@;
            lines.set(i, fresh);
            proof {
                assert(lines.deep_view() =~= dv.update(i as int, fv));
            }
            return;
        }
        i = i + 1;
    }
    proof {
        lemma_set_line_append(dv, key@, value@);
    }
    let ghost fv = fresh@;
    lines.push(fresh);
    proof {
        assert(lines.deep_view() =~= dv.push(fv));
    }
}

/// Produce the file content that saving `settings` over the given existing
/// content yields. Absent content (a missing file) starts from no lines.
pub fn save_settings(settings: &EnvSettings, content: Option<&str>) -> (out: String)
    ensures
        content matches Some(c) ==> out@ == spec_save(settings@, c@),
        content is None ==> out@ == spec_save(settings@, Seq::<char>::empty()),
{
    let mut lines: Vec<String> = match content {
        Some(c) => split_lines(c),
        None => Vec::new(),
    };
    proof {
        if content is None {
            assert(lines.deep_view() =~= spec_lines(Seq::<char>::empty()));
        }
    }
    let ghost ls0 = lines.deep_view();
    match &settings.beeminder_username {
        Some(u) => set_line(&mut lines, "BEEMINDER_USERNAME", u.as_str()),
        None => {},
    }
    let ghost ls1 = lines.deep_view();
    match &settings.beeminder_goal {
        Some(g) => set_line(&mut lines, "BEEMINDER_GOAL", g.as_str()),
        None => {},
    }
    let ghost ls2 = lines.deep_view();
    match &settings.beeminder_token {
        Some(t) => set_line(&mut lines, "BEEMINDER_TOKEN", t.as_str()),
        None => {},
    }
    proof {
        assert(lines.deep_view() == spec_apply(ls0, settings@));
    }
    render_lines(&lines)
}

} // verus!
