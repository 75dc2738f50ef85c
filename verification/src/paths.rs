//! Path resolution from explicit components.
//!
//! The application receives the directory it was built in as a list of path
//! components and derives every other location from it: the repository root
//! lies two components up, and the configuration file, the data directory
//! and the status document lie directly under the root. Components are
//! joined for display with `/`.

use vstd::prelude::*;

verus! {

/// Path components joined by `/`.
pub open spec fn spec_join_path(ps: Seq<Seq<char>>) -> Seq<char>
    decreases ps.len(),
{
    if ps.len() == 0 {
        Seq::empty()
    } else if ps.len() == 1 {
        ps[0]
    } else {
        ps[0] + seq!['/'] + spec_join_path(ps.skip(1))
    }
}

pub proof fn lemma_join_push(ps: Seq<Seq<char>>, x: Seq<char>)
    requires
        ps.len() >= 1,
    ensures
        spec_join_path(ps.push(x)) == spec_join_path(ps) + seq!['/'] + x,
    decreases ps.len(),
{
    if ps.len() == 1 {
        assert(ps.push(x)[0] == ps[0]);
        assert(ps.push(x).skip(1) =~= seq![x]);
        assert(spec_join_path(seq![x]) == x);
    } else {
        assert(ps.push(x)[0] == ps[0]);
        assert(ps.push(x).skip(1) =~= ps.skip(1).push(x));
        lemma_join_push(ps.skip(1), x);
        assert((ps[0] + seq!['/'] + (spec_join_path(ps.skip(1)) + seq!['/'] + x)) =~= ((ps[0]
            + seq!['/'] + spec_join_path(ps.skip(1))) + seq!['/'] + x));
    }
}

/// Join path components with `/`.
pub fn join_path(parts: &Vec<String>) -> (out: String)
    ensures
        out@ == spec_join_path(parts.deep_view()),
{
    let ghost dv = parts.deep_view();
    let mut out = String::new();
    if parts.len() == 0 {
        return out;
    }
    out.append(parts[0].as_str());
    proof {
        reveal_strlit("/");
        assert(out@ =~= dv[0]);
        assert(dv.take(1) =~= seq![dv[0]]);
        assert(spec_join_path(seq![dv[0]]) == dv[0]);
    }
    let mut i: usize = 1;
    while i < parts.len()
        invariant
            1 <= i <= parts.len(),
            dv == parts.deep_view(),
            dv.len() == parts.len(),
            "/"@ == seq!['/'],
            out@ == spec_join_path(dv.take(i as int)),
        decreases parts.len() - i,
    {
        out.append("/");
        out.append(parts[i].as_str());
        proof {
            assert(dv.take(i as int + 1) =~= dv.take(i as int).push(dv[i as int]));
            lemma_join_push(dv.take(i as int), dv[i as int]);
            assert(out@ =~= spec_join_path(dv.take(i as int)) + seq!['/'] + dv[i as int]);
        }
        i = i + 1;
    }
    proof {
        assert(dv.take(dv.len() as int) =~= dv);
    }
    out
}

/// The display path of the entry `name` directly under `root`.
pub fn child_path(root: &Vec<String>, name: &str) -> (p: String)
    ensures
        p@ == spec_join_path(root.deep_view().push(name@)),
{
    if root.len() == 0 {
        proof {
            assert(root.deep_view().push(name@) =~= seq![name@]);
            assert(spec_join_path(seq![name@]) == name@);
        }
        return String::from_str(name);
    }
    let mut out = join_path(root);
    out.append("/");
    out.append(name);
    proof {
        reveal_strlit("/");
        lemma_join_push(root.deep_view(), name@);
        assert(out@ =~= spec_join_path(root.deep_view()) + seq!['/'] + name@);
    }
    out
}

/// Resolve the repository root from the directory that holds the
/// application shell, which lies two levels below the root.
pub fn repo_root(src_tauri_dir: &Vec<String>) -> (r: Result<Vec<String>, String>)
    ensures
        src_tauri_dir@.len() >= 2 ==> (r matches Ok(root) && root.deep_view()
            == src_tauri_dir.deep_view().take(src_tauri_dir@.len() - 2)),
        src_tauri_dir@.len() < 2 ==> (r matches Err(m) && m@
            == "Failed to resolve repository root"@),
{
    if src_tauri_dir.len() < 2 {
        return Err(String::from_str("Failed to resolve repository root"));
    }
    let n = src_tauri_dir.len() - 2;
    let mut root: Vec<String> = Vec::new();
    proof {
        assert(root.deep_view() =~= src_tauri_dir.deep_view().take(0));
    }
    let mut i: usize = 0;
    while i < n
        invariant
            0 <= i <= n,
            n + 2 == src_tauri_dir@.len(),
            root.deep_view() == src_tauri_dir.deep_view().take(i as int),
        decreases n - i,
    {
        let ghost pre = root.deep_view();
        root.push(src_tauri_dir[i].clone());
        proof {
            assert(root.deep_view() =~= pre.push(src_tauri_dir.deep_view()[i as int]));
            assert(src_tauri_dir.deep_view().take(i as int).push(src_tauri_dir.deep_view()[i as int])
                =~= src_tauri_dir.deep_view().take(i as int + 1));
        }
        i = i + 1;
    }
    Ok(root)
}

/// The display paths the application exposes: the repository root, the
/// configuration file, and the data directory.
pub struct Paths {
    pub repo_root: String,
    pub config_path: String,
    pub data_dir: String,
}

pub fn get_paths(root: &Vec<String>) -> (p: Paths)
    ensures
        p.repo_root@ == spec_join_path(root.deep_view()),
        p.config_path@ == spec_join_path(root.deep_view().push("config.yaml"@)),
        p.data_dir@ == spec_join_path(root.deep_view().push("data"@)),
{
    Paths {
        repo_root: join_path(root),
        config_path: child_path(root, "config.yaml"),
        data_dir: child_path(root, "data"),
    }
}

/// The display path of the status document under the data directory.
pub fn status_path(root: &Vec<String>) -> (p: String)
    ensures
        p@ == spec_join_path(root.deep_view().push("data"@).push("status.json"@)),
{
    let mut out = child_path(root, "data");
    out.append("/");
    out.append("status.json");
    proof {
        reveal_strlit("/");
        lemma_join_push(root.deep_view().push("data"@), "status.json"@);
        assert(out@ =~= spec_join_path(root.deep_view().push("data"@)) + seq!['/']
            + "status.json"@);
    }
    out
}

} // verus!
