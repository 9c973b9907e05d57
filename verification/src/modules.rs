//! What happens to one module of a source tree: where its generated code
//! goes, whether it is due, and what is generated for it.
use vstd::prelude::*;
use crate::generated_module;
use crate::parsers::{model_of, parse};
use crate::syntax::{parse_rust_file, rust_file_syntax};
use crate::text::{replace, replace_all};

verus! {

/// The file that holds the generated code of the module in `mod_path`.
pub open spec fn auto_file_path(mod_path: Seq<char>) -> Seq<char> {
    replace_all(mod_path, "mod.rs"@, "kay_auto.rs"@)
}

/// The path of the file that holds the generated code of the module in
/// `mod_path`: every `mod.rs` in it becomes `kay_auto.rs`.
pub fn auto_path(mod_path: &str) -> (r: String)
    ensures
        r@ == auto_file_path(mod_path@),
{
    proof {
        reveal_strlit("mod.rs");
    }
    replace(mod_path, "mod.rs", "kay_auto.rs")
}

/// The pattern of the module files under `src_prefix`.
pub fn module_pattern(src_prefix: &str) -> (r: String)
    ensures
        r@ == src_prefix@ + "/**/mod.rs"@,
{
    let mut r = String::from_str(src_prefix);
    r.append("/**/mod.rs");
    r
}

/// A module's code is due: there is no generated file, or the module was
/// modified after it.
pub open spec fn is_due(module_modified: u128, generated_modified: Option<u128>) -> bool {
    match generated_modified {
        Some(t) => module_modified > t,
        None => true,
    }
}

/// Whether a module's code is due: there is no generated file yet, or the
/// module was modified after it (times as nanoseconds since a fixed
/// instant).
pub fn needs_regeneration(module_modified: u128, generated_modified: Option<u128>) -> (r: bool)
    ensures
        r == is_due(module_modified, generated_modified),
{
    match generated_modified {
        Some(t) => module_modified > t,
        None => true,
    }
}

/// What is generated for a module.
#[derive(Debug)]
pub enum ModuleOutput {
    /// The module declares no actor and no actor trait: nothing is written.
    Nothing,
    /// The code to write.
    Code(String),
    /// The module is not valid Rust.
    Unreadable(syn::Error),
    /// An `impl` block is for a type that is not named by a path (such as a
    /// reference or a tuple).
    UnsupportedImpl,
    /// A handler has an argument that the generated code cannot express:
    /// one that is not a pattern with a type, or whose pattern is not a name
    /// or `_`.
    Unsupported,
}

/// What is generated for the module whose source is `text`: nothing where
/// it declares no actor and no actor trait, else its generated module.
pub fn generate_for_module(text: &str) -> (r: ModuleOutput)
    ensures
        module_code(text@) == match r {
            ModuleOutput::Code(c) => Some(c@),
            _ => None,
        },
        match rust_file_syntax(text@) {
            None => r is Unreadable,
            Some(f) => if !f.impls_on_paths() {
                r is UnsupportedImpl
            } else if model_of(f).actors.len() == 0 && model_of(f).traits.len() == 0 {
                r is Nothing
            } else if model_of(f).generable() {
                r matches ModuleOutput::Code(c) && c@ == generated_module(model_of(f), false)
            } else {
                r is Unsupported
            },
        },
{
    match parse_rust_file(text) {
        Ok(parsed) => {
            if !parsed.impls_on_paths() {
                return ModuleOutput::UnsupportedImpl;
            }
        },
        Err(e) => {
            return ModuleOutput::Unreadable(e);
        },
    }
    match parse(text) {
        Ok(model) => {
            let na = crate::index_map::actor_map_len(&model.actors);
            let nt = crate::index_map::trait_map_len(&model.traits);
            if na == 0 && nt == 0 {
                ModuleOutput::Nothing
            } else if model.generable() {
                ModuleOutput::Code(crate::generate(&model))
            } else {
                ModuleOutput::Unsupported
            }
        },
        Err(e) => ModuleOutput::Unreadable(e),
    }
}

// ---------------------------------------------------------------------------
// A scan of a source tree, on a model of the file system
// ---------------------------------------------------------------------------

/// The code written for a module whose text is `text`, if any: none where
/// the text is not valid Rust, declares no actor and no trait, or holds an
/// `impl` block or a handler argument that cannot be generated.
pub open spec fn module_code(text: Seq<char>) -> Option<Seq<char>> {
    match rust_file_syntax(text) {
        Some(f) => if f.impls_on_paths() && !(model_of(f).actors.len() == 0
            && model_of(f).traits.len() == 0) && model_of(f).generable() {
            Some(generated_module(model_of(f), false))
        } else {
            None
        },
        None => None,
    }
}

/// A file: its text and the time it was last modified.
pub struct FileState {
    pub text: Seq<char>,
    pub modified: u128,
}

/// The time of the file generated for the module in `p`, if there is one.
pub open spec fn generated_time(fs: Map<Seq<char>, FileState>, p: Seq<char>) -> Option<u128> {
    if fs.contains_key(auto_file_path(p)) {
        Some(fs[auto_file_path(p)].modified)
    } else {
        None
    }
}

/// The files after the module in `p` was looked at: where its code is due
/// and there is code for it, that code is written beside it at time `now`.
pub open spec fn scan_one(fs: Map<Seq<char>, FileState>, p: Seq<char>, now: u128) -> Map<Seq<char>, FileState> {
    if fs.contains_key(p) && is_due(fs[p].modified, generated_time(fs, p)) {
        match module_code(fs[p].text) {
            Some(c) => fs.insert(auto_file_path(p), FileState { text: c, modified: now }),
            None => fs,
        }
    } else {
        fs
    }
}

/// The files after the modules in `paths` were looked at, in order.
pub open spec fn scan(fs: Map<Seq<char>, FileState>, paths: Seq<Seq<char>>, now: u128) -> Map<Seq<char>, FileState>
    decreases paths.len(),
{
    if paths.len() == 0 {
        fs
    } else {
        scan_one(scan(fs, paths.drop_last(), now), paths.last(), now)
    }
}

// ---------------------------------------------------------------------------
// Scanning a source tree
// ---------------------------------------------------------------------------

/// A module that is no newer than its generated file, or that declares no
/// actor and no actor trait, leaves the files as they are when it is looked
/// at; its generated file in particular stays as it was (or absent).
pub proof fn law_unchanged_or_empty_module_keeps_files(fs: Map<Seq<char>, FileState>, p: Seq<char>, now: u128)
    requires
        fs.contains_key(p),
        (generated_time(fs, p) matches Some(t) && fs[p].modified <= t) || (rust_file_syntax(
            fs[p].text,
        ) matches Some(f) && model_of(f).actors.len() == 0 && model_of(f).traits.len() == 0),
    ensures
        scan_one(fs, p, now) == fs,
{
}

/// Looking at one module changes no file but the one beside it.
proof fn lemma_scan_one_other(fs: Map<Seq<char>, FileState>, p: Seq<char>, now: u128, k: Seq<char>)
    requires
        k != auto_file_path(p),
    ensures
        scan_one(fs, p, now).contains_key(k) == fs.contains_key(k),
        fs.contains_key(k) ==> scan_one(fs, p, now)[k] == fs[k],
{
}

/// A scan changes no file but those beside the scanned modules: every
/// other file is there after it exactly when it was there before, with the
/// same text and time.
pub proof fn law_scan_writes_only_generated_files(
    fs: Map<Seq<char>, FileState>,
    paths: Seq<Seq<char>>,
    now: u128,
    k: Seq<char>,
)
    requires
        forall|i: int| 0 <= i < paths.len() ==> k != auto_file_path(#[trigger] paths[i]),
    ensures
        scan(fs, paths, now).contains_key(k) == fs.contains_key(k),
        fs.contains_key(k) ==> scan(fs, paths, now)[k] == fs[k],
    decreases paths.len(),
{
    if paths.len() > 0 {
        let d = paths.drop_last();
        assert forall|i: int| 0 <= i < d.len() implies k != auto_file_path(#[trigger] d[i]) by {
            assert(d[i] == paths[i]);
        }
        law_scan_writes_only_generated_files(fs, d, now, k);
        assert(k != auto_file_path(paths[paths.len() - 1]));
        lemma_scan_one_other(scan(fs, d, now), paths.last(), now, k);
    }
}

/// Every file is no newer than `now`.
pub open spec fn times_up_to(fs: Map<Seq<char>, FileState>, now: u128) -> bool {
    forall|k: Seq<char>| fs.contains_key(k) ==> #[trigger] fs[k].modified <= now
}

/// After a scan, a module in the scanned paths that has code has a
/// generated file no older than the module.
proof fn lemma_scan_covers(fs: Map<Seq<char>, FileState>, paths: Seq<Seq<char>>, now: u128, j: int)
    requires
        times_up_to(fs, now),
        0 <= j < paths.len(),
        forall|i: int| 0 <= i < paths.len() ==> paths[j] != auto_file_path(#[trigger] paths[i]),
        fs.contains_key(paths[j]),
        module_code(fs[paths[j]].text) is Some,
    ensures
        scan(fs, paths, now).contains_key(auto_file_path(paths[j])),
        scan(fs, paths, now)[auto_file_path(paths[j])].modified >= fs[paths[j]].modified,
    decreases paths.len(),
{
    let p = paths[j];
    let a = auto_file_path(p);
    let d = paths.drop_last();
    let prev = scan(fs, d, now);
    let q = paths.last();
    assert(fs[p].modified <= now);
    assert(scan(fs, paths, now) == scan_one(prev, q, now));
    if j < paths.len() - 1 {
        assert(d[j] == p);
        assert forall|i: int| 0 <= i < d.len() implies d[j] != auto_file_path(#[trigger] d[i]) by {
            assert(d[i] == paths[i]);
        }
        lemma_scan_covers(fs, d, now, j);
    } else {
        assert(q == p);
        assert forall|i: int| 0 <= i < d.len() implies p != auto_file_path(#[trigger] d[i]) by {
            assert(d[i] == paths[i]);
        }
        law_scan_writes_only_generated_files(fs, d, now, p);
        assert(prev[p] == fs[p]);
        if !is_due(prev[p].modified, generated_time(prev, p)) {
            assert(generated_time(prev, p) is Some);
        }
    }
}

/// A scan at `now`, of a file system no file of which is newer than `now`
/// and no module path of which is the generated path of another, leaves
/// nothing for a second scan to do: the second scan, at any time, writes
/// nothing.
pub proof fn law_second_scan_writes_nothing(
    fs: Map<Seq<char>, FileState>,
    paths: Seq<Seq<char>>,
    now: u128,
    later: u128,
)
    requires
        times_up_to(fs, now),
        forall|x: int, y: int| 0 <= x < paths.len() && 0 <= y < paths.len() ==> #[trigger] paths[x] != auto_file_path(#[trigger] paths[y]),
    ensures
        scan(scan(fs, paths, now), paths, later) == scan(fs, paths, now),
{
    let fs1 = scan(fs, paths, now);
    assert forall|j: int| 0 <= j < paths.len() implies scan_one(fs1, #[trigger] paths[j], later) == fs1 by {
        let p = paths[j];
        assert forall|i: int| 0 <= i < paths.len() implies p != auto_file_path(#[trigger] paths[i]) by {
            assert(paths[j] != auto_file_path(paths[i]));
        }
        law_scan_writes_only_generated_files(fs, paths, now, p);
        if fs.contains_key(p) && module_code(fs[p].text) is Some {
            lemma_scan_covers(fs, paths, now, j);
        }
        assert(fs1.contains_key(p) == fs.contains_key(p));
    }
    lemma_rescan_prefix(fs1, paths, paths.len() as int, later);
    assert(paths.take(paths.len() as int) =~= paths);
}

/// Scanning modules none of which changes the files changes nothing.
proof fn lemma_rescan_prefix(fs: Map<Seq<char>, FileState>, paths: Seq<Seq<char>>, n: int, later: u128)
    requires
        0 <= n <= paths.len(),
        forall|j: int| 0 <= j < paths.len() ==> scan_one(fs, #[trigger] paths[j], later) == fs,
    ensures
        scan(fs, paths.take(n), later) == fs,
    decreases n,
{
    if n > 0 {
        lemma_rescan_prefix(fs, paths, n - 1, later);
        assert(paths.take(n).drop_last() =~= paths.take(n - 1));
        assert(paths.take(n).last() == paths[n - 1]);
    }
}

} // verus!
