//! The repository resolver: where a repository's metadata and file tree are
//! asked for, and what the answers say. Sending the requests is the
//! caller's part; this module builds the addresses and reads the bodies.

use crate::json::{
    json_parse, json_tree, parse_value, read_required_text, required_text, value_as_array,
    value_member, JsonTree,
};
use crate::text::{
    chars_of, copy_range, ends_with, find_last, last_segment, pair_views, push_all, same_chars,
    string_of,
};
use vstd::prelude::*;

verus! {

/// Where the hosting API keeps its repositories.
pub const API_ROOT: &'static str = "https://api.github.com/repos";

/// Where the hosting service keeps its repositories for cloning.
pub const HOST_ROOT: &'static str = "https://github.com";

/// What follows the repository in the address of a file tree.
pub const TREE_PATH: &'static str = "/git/trees/";

/// What asks for the whole tree, below the top directory too.
pub const RECURSIVE: &'static str = "?recursive=1";

/// The kind of a tree entry that is a file.
pub const BLOB: &'static str = "blob";

/// How the path of a Solidity source ends.
pub const SOLIDITY_SUFFIX: &'static str = ".sol";

/// The member of the repository metadata that names the default branch.
pub const DEFAULT_BRANCH: &'static str = "default_branch";

/// Why a repository could not be resolved.
#[derive(Clone, Copy, Debug, PartialEq, Eq, Structural)]
pub enum RepoError {
    /// The metadata request did not succeed, or its answer names no default
    /// branch.
    BranchNotFound,
    /// The answer to the tree request is no file tree.
    MalformedTree,
}

/// One node of a repository's file tree. `kind` holds the `type` member of
/// the entry: `blob` for a file, `tree` for a directory.
#[derive(Debug)]
pub struct TreeEntry {
    pub path: String,
    pub kind: String,
    pub url: String,
}

/// The model of `TreeEntry`.
pub struct TreeEntryView {
    pub path: Seq<char>,
    pub kind: Seq<char>,
    pub url: Seq<char>,
}

impl View for TreeEntry {
    type V = TreeEntryView;

    open spec fn view(&self) -> TreeEntryView {
        TreeEntryView { path: self.path@, kind: self.kind@, url: self.url@ }
    }
}

/// The models of a sequence of entries.
pub open spec fn entry_views(entries: Seq<TreeEntry>) -> Seq<TreeEntryView> {
    entries.map_values(|entry: TreeEntry| entry@)
}

/// The address of a repository's metadata.
pub open spec fn metadata_url_of(owner: Seq<char>, repo: Seq<char>) -> Seq<char> {
    API_ROOT@ + seq!['/'] + owner + seq!['/'] + repo
}

/// The address of the whole file tree of a branch.
pub open spec fn tree_url_of(owner: Seq<char>, repo: Seq<char>, branch: Seq<char>) -> Seq<char> {
    metadata_url_of(owner, repo) + TREE_PATH@ + branch + RECURSIVE@
}

/// The address from which a repository is cloned.
pub open spec fn clone_url_of(owner: Seq<char>, repo: Seq<char>) -> Seq<char> {
    HOST_ROOT@ + seq!['/'] + owner + seq!['/'] + repo
}

/// Does the status code of an answer say that the request succeeded?
pub open spec fn is_success_code(status: u16) -> bool {
    200 <= status < 300
}

/// The default branch that a metadata document names.
pub open spec fn branch_in(document: JsonTree) -> Option<Seq<char>> {
    required_text(document, DEFAULT_BRANCH@)
}

/// The default branch that the answer to a metadata request names: the
/// request must have succeeded, its body must be a JSON document, and the
/// document must name the branch in a string.
pub open spec fn default_branch_of(status: u16, body: Seq<char>) -> Result<Seq<char>, RepoError> {
    if is_success_code(status) && json_parse(body) is Some && branch_in(json_parse(body).unwrap())
        is Some {
        Ok(branch_in(json_parse(body).unwrap()).unwrap())
    } else {
        Err(RepoError::BranchNotFound)
    }
}

/// The tree entry that a JSON value describes: `path`, `type` and `url`
/// must all be there, as strings.
pub open spec fn entry_of(tree: JsonTree) -> Option<TreeEntryView> {
    if required_text(tree, "path"@) is Some && required_text(tree, "type"@) is Some
        && required_text(tree, "url"@) is Some {
        Some(
            TreeEntryView {
                path: required_text(tree, "path"@).unwrap(),
                kind: required_text(tree, "type"@).unwrap(),
                url: required_text(tree, "url"@).unwrap(),
            },
        )
    } else {
        None
    }
}

/// The entries that a sequence of JSON values describes, where every one of
/// them describes an entry.
pub open spec fn entries_of(items: Seq<JsonTree>) -> Option<Seq<TreeEntryView>> {
    if forall|i: int| 0 <= i < items.len() ==> (#[trigger] entry_of(items[i])) is Some {
        Some(items.map_values(|item: JsonTree| entry_of(item).unwrap()))
    } else {
        None
    }
}

/// The file tree in a tree document: the entries of its `tree` member.
pub open spec fn tree_in(document: JsonTree) -> Option<Seq<TreeEntryView>> {
    match document.member("tree"@) {
        Some(node) => match node.items() {
            Some(items) => entries_of(items),
            None => None,
        },
        None => None,
    }
}

/// The file tree that the body of a tree answer holds.
pub open spec fn tree_of(body: Seq<char>) -> Result<Seq<TreeEntryView>, RepoError> {
    match json_parse(body) {
        Some(document) => match tree_in(document) {
            Some(entries) => Ok(entries),
            None => Err(RepoError::MalformedTree),
        },
        None => Err(RepoError::MalformedTree),
    }
}

/// Is the entry a file whose path ends in `.sol`?
pub open spec fn is_solidity_blob(entry: TreeEntryView) -> bool {
    entry.kind == BLOB@ && SOLIDITY_SUFFIX@.is_suffix_of(entry.path)
}

/// Where the content of an entry is found, and the name of its file: the
/// last segment of its path.
pub open spec fn locator_of(entry: TreeEntryView) -> (Seq<char>, Seq<char>) {
    (entry.url, last_segment(entry.path))
}

/// The Solidity sources of a tree: for each file whose path ends in `.sol`,
/// in the order of the tree, its locator and file name. Two files of one
/// name in different directories give two pairs.
pub open spec fn solidity_sources_of(entries: Seq<TreeEntryView>) -> Seq<(Seq<char>, Seq<char>)> {
    entries.filter(|entry: TreeEntryView| is_solidity_blob(entry)).map_values(
        |entry: TreeEntryView| locator_of(entry),
    )
}

/// The Solidity sources that the body of a tree answer lists.
pub open spec fn sources_of(body: Seq<char>) -> Result<Seq<(Seq<char>, Seq<char>)>, RepoError> {
    match tree_of(body) {
        Ok(entries) => Ok(solidity_sources_of(entries)),
        Err(error) => Err(error),
    }
}

/// Every source that is listed is the locator and the file name of an entry
/// of the tree that is a file with a path ending in `.sol`: a directory, or
/// a file of another kind, is never listed.
pub proof fn lemma_sources_are_solidity_blobs(entries: Seq<TreeEntryView>, i: int)
    requires
        0 <= i < solidity_sources_of(entries).len(),
    ensures
        exists|j: int|
            0 <= j < entries.len() && is_solidity_blob(#[trigger] entries[j]) && locator_of(
                entries[j],
            ) == solidity_sources_of(entries)[i],
{
    let keep = |entry: TreeEntryView| is_solidity_blob(entry);
    let kept = entries.filter(keep);
    let entry = kept[i];
    entries.lemma_filter_pred(keep, i);
    assert(kept.contains(entry));
    entries.lemma_filter_contains_rev(keep, entry);
    let j = choose|j: int| 0 <= j < entries.len() && entries[j] == entry;
    assert(is_solidity_blob(entries[j]));
}

/// A tree without a Solidity file lists no source.
pub proof fn lemma_no_solidity_no_sources(entries: Seq<TreeEntryView>)
    requires
        forall|j: int| 0 <= j < entries.len() ==> !is_solidity_blob(#[trigger] entries[j]),
    ensures
        solidity_sources_of(entries).len() == 0,
{
    if solidity_sources_of(entries).len() > 0 {
        lemma_sources_are_solidity_blobs(entries, 0);
    }
}

/// The name of the repository that a reference names: what follows the last
/// `'/'` of a URL or of `owner/name`, and the whole reference where it has no
/// `'/'`.
pub fn repo_name(reference: &str) -> (name: String)
    ensures
        name@ == last_segment(reference@),
{
    let chars = chars_of(reference);
    string_of(&file_name(&chars))
}

/// The last segment of a path.
pub fn file_name(path: &Vec<char>) -> (name: Vec<char>)
    ensures
        name@ == last_segment(path@),
{
    let last = find_last(path, '/');
    let from: usize = match last {
        Some(at) => at + 1,
        None => 0,
    };
    copy_range(path, from, path.len())
}

/// The address of a repository's metadata.
pub fn metadata_url(owner: &str, repo: &str) -> (url: String)
    ensures
        url@ == metadata_url_of(owner@, repo@),
{
    let mut url = chars_of(API_ROOT);
    url.push('/');
    push_all(&mut url, &chars_of(owner));
    url.push('/');
    push_all(&mut url, &chars_of(repo));
    proof {
        assert(url@ =~= metadata_url_of(owner@, repo@));
    }
    string_of(&url)
}

/// The address of the whole file tree of a branch.
pub fn tree_url(owner: &str, repo: &str, branch: &str) -> (url: String)
    ensures
        url@ == tree_url_of(owner@, repo@, branch@),
{
    let mut url = chars_of(metadata_url(owner, repo).as_str());
    push_all(&mut url, &chars_of(TREE_PATH));
    push_all(&mut url, &chars_of(branch));
    push_all(&mut url, &chars_of(RECURSIVE));
    string_of(&url)
}

/// The address from which a repository is cloned.
pub fn clone_url(owner: &str, repo: &str) -> (url: String)
    ensures
        url@ == clone_url_of(owner@, repo@),
{
    let mut url = chars_of(HOST_ROOT);
    url.push('/');
    push_all(&mut url, &chars_of(owner));
    url.push('/');
    push_all(&mut url, &chars_of(repo));
    proof {
        assert(url@ =~= clone_url_of(owner@, repo@));
    }
    string_of(&url)
}

/// Does the status code of an answer say that the request succeeded?
pub fn is_success(status: u16) -> (success: bool)
    ensures
        success == is_success_code(status),
{
    200 <= status && status < 300
}

/// The default branch that a metadata document names.
pub fn branch_in_document(document: &serde_json::Value) -> (branch: Option<String>)
    ensures
        branch.deep_view() == branch_in(json_tree(*document)),
{
    read_required_text(document, DEFAULT_BRANCH)
}

/// The default branch that the answer to a metadata request names.
pub fn get_default_branch(status: u16, body: &str) -> (branch: Result<String, RepoError>)
    ensures
        match branch {
            Ok(name) => default_branch_of(status, body@) == Ok::<Seq<char>, RepoError>(name@),
            Err(error) => default_branch_of(status, body@) == Err::<Seq<char>, RepoError>(error),
        },
{
    if !is_success(status) {
        return Err(RepoError::BranchNotFound);
    }
    match parse_value(body) {
        Ok(document) => match branch_in_document(&document) {
            Some(name) => Ok(name),
            None => Err(RepoError::BranchNotFound),
        },
        Err(_) => Err(RepoError::BranchNotFound),
    }
}

/// Reads a tree entry from a JSON value.
pub fn read_entry(value: &serde_json::Value) -> (entry: Option<TreeEntry>)
    ensures
        match entry {
            Some(entry) => entry_of(json_tree(*value)) == Some(entry@),
            None => entry_of(json_tree(*value)) is None,
        },
{
    let path = match read_required_text(value, "path") {
        Some(text) => text,
        None => return None,
    };
    let kind = match read_required_text(value, "type") {
        Some(text) => text,
        None => return None,
    };
    let url = match read_required_text(value, "url") {
        Some(text) => text,
        None => return None,
    };
    Some(TreeEntry { path, kind, url })
}

/// Reads the file tree out of a tree document. One entry that is not shaped
/// like an entry spoils the whole tree.
pub fn read_tree(document: &serde_json::Value) -> (tree: Option<Vec<TreeEntry>>)
    ensures
        match tree {
            Some(entries) => tree_in(json_tree(*document)) == Some(entry_views(entries@)),
            None => tree_in(json_tree(*document)) is None,
        },
{
    let node = match value_member(document, "tree") {
        Some(node) => node,
        None => return None,
    };
    let items = match value_as_array(node) {
        Some(items) => items,
        None => return None,
    };
    let ghost trees = crate::json::json_trees(items@);
    let mut entries: Vec<TreeEntry> = Vec::new();
    let mut i: usize = 0;
    while i < items.len()
        invariant
            i <= items.len(),
            trees == crate::json::json_trees(items@),
            tree_in(json_tree(*document)) == entries_of(trees),
            entries@.len() == i,
            forall|j: int| 0 <= j < i ==> entry_of(trees[j]) == Some(#[trigger] entries@[j]@),
        decreases items.len() - i,
    {
        match read_entry(&items[i]) {
            Some(entry) => {
                entries.push(entry);
            },
            None => {
                assert(entry_of(trees[i as int]) is None);
                return None;
            },
        }
        i += 1;
    }
    proof {
        assert forall|j: int| 0 <= j < trees.len() implies (#[trigger] entry_of(
            trees[j],
        )) is Some by {
            assert(entry_of(trees[j]) == Some(entries@[j]@));
        }
        assert(entry_views(entries@) =~= trees.map_values(
            |item: JsonTree| entry_of(item).unwrap(),
        ));
    }
    Some(entries)
}

/// The file tree that the body of a tree answer holds.
pub fn parse_tree(body: &str) -> (tree: Result<Vec<TreeEntry>, RepoError>)
    ensures
        match tree {
            Ok(entries) => tree_of(body@) == Ok::<Seq<TreeEntryView>, RepoError>(
                entry_views(entries@),
            ),
            Err(error) => tree_of(body@) == Err::<Seq<TreeEntryView>, RepoError>(error),
        },
{
    match parse_value(body) {
        Ok(document) => match read_tree(&document) {
            Some(entries) => Ok(entries),
            None => Err(RepoError::MalformedTree),
        },
        Err(_) => Err(RepoError::MalformedTree),
    }
}

/// Is the entry a file whose path ends in `.sol`?
pub fn is_solidity(entry: &TreeEntry) -> (solidity: bool)
    ensures
        solidity == is_solidity_blob(entry@),
{
    let kind = chars_of(entry.kind.as_str());
    let path = chars_of(entry.path.as_str());
    same_chars(&kind, &chars_of(BLOB)) && ends_with(&path, &chars_of(SOLIDITY_SUFFIX))
}

/// The Solidity sources of a tree: for each file whose path ends in `.sol`,
/// its locator and file name.
pub fn solidity_sources(entries: &Vec<TreeEntry>) -> (sources: Vec<(String, String)>)
    ensures
        pair_views(sources@) == solidity_sources_of(entry_views(entries@)),
{
    let ghost all = entry_views(entries@);
    let ghost keep = |entry: TreeEntryView| is_solidity_blob(entry);
    let ghost locate = |entry: TreeEntryView| locator_of(entry);
    let mut sources: Vec<(String, String)> = Vec::new();
    let mut i: usize = 0;
    proof {
        reveal(Seq::filter);
        assert(all.take(0) =~= Seq::<TreeEntryView>::empty());
        assert(pair_views(sources@) =~= all.take(0).filter(keep).map_values(locate));
    }
    while i < entries.len()
        invariant
            i <= entries.len(),
            all == entry_views(entries@),
            keep == (|entry: TreeEntryView| is_solidity_blob(entry)),
            locate == (|entry: TreeEntryView| locator_of(entry)),
            pair_views(sources@) == all.take(i as int).filter(keep).map_values(locate),
        decreases entries.len() - i,
    {
        let entry = &entries[i];
        let ghost before = pair_views(sources@);
        proof {
            assert(all.take(i + 1) =~= all.take(i as int).push(entry@));
            all.take(i as int).lemma_filter_push(entry@, keep);
        }
        if is_solidity(entry) {
            let name = string_of(&file_name(&chars_of(entry.path.as_str())));
            let url = entry.url.clone();
            sources.push((url, name));
            proof {
                assert(pair_views(sources@) =~= before.push(locator_of(entry@)));
                all.take(i as int).filter(keep).lemma_push_map_commute(locate, entry@);
            }
        }
        i += 1;
    }
    proof {
        assert(all.take(entries@.len() as int) =~= all);
    }
    sources
}

/// The Solidity sources that the body of a tree answer lists.
pub fn get_contracts_urls(body: &str) -> (sources: Result<Vec<(String, String)>, RepoError>)
    ensures
        match sources {
            Ok(pairs) => sources_of(body@) == Ok::<Seq<(Seq<char>, Seq<char>)>, RepoError>(
                pair_views(pairs@),
            ),
            Err(error) => sources_of(body@) == Err::<Seq<(Seq<char>, Seq<char>)>, RepoError>(
                error,
            ),
        },
{
    match parse_tree(body) {
        Ok(entries) => Ok(solidity_sources(&entries)),
        Err(error) => Err(error),
    }
}

} // verus!
