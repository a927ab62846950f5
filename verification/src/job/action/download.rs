//! Fetching actions and unpacking them.
use vstd::prelude::*;
use vstd::slice::*;
use vstd::string::*;

use crate::job::action::resolve::{ActionSource, SourceV};
use crate::path;
use crate::raw_path;
use crate::str_map;
use crate::text;

verus! {

/// Where an action is, or will be once it was fetched.
pub struct ActionPlace {
    pub action_dir: String,
    /// The directory that is missing as long as the action was not fetched.
    pub cache_dir: Option<String>,
}

pub struct ActionPlaceV {
    pub action_dir: Seq<char>,
    pub cache_dir: Option<Seq<char>>,
}

impl View for ActionPlace {
    type V = ActionPlaceV;

    open spec fn view(&self) -> ActionPlaceV {
        ActionPlaceV { action_dir: self.action_dir@, cache_dir: text::opt(self.cache_dir) }
    }
}

/// Where an action is. An image is nowhere: it is no directory.
pub open spec fn place_of(cache: Seq<char>, source: SourceV, checkout: Seq<char>) -> Result<
    ActionPlaceV,
    Seq<char>,
> {
    match source {
        SourceV::Remote(owner, repo, git_ref, sub) => {
            let dir = path::below(path::below(path::below(cache, owner), repo), git_ref);
            Ok(
                ActionPlaceV {
                    action_dir: match sub {
                        Some(p) => path::below(dir, p),
                        None => dir,
                    },
                    cache_dir: Some(dir),
                },
            )
        },
        SourceV::Local(p) => Ok(
            ActionPlaceV { action_dir: path::below(checkout, p), cache_dir: None },
        ),
        SourceV::Docker(image) => Err(
            "Docker action '"@ + image + "' should be handled before get_action is called"@,
        ),
    }
}

/// Find where an action is.
pub fn get_action(cache_dir: &str, source: &ActionSource, workspace_dir: &str) -> (r: Result<
    ActionPlace,
    String,
>)
    ensures
        match r {
            Ok(p) => place_of(cache_dir@, source@, workspace_dir@) == Ok::<
                ActionPlaceV,
                Seq<char>,
            >(p@),
            Err(e) => place_of(cache_dir@, source@, workspace_dir@) == Err::<
                ActionPlaceV,
                Seq<char>,
            >(e@),
        },
{
    match source {
        ActionSource::Remote { owner, repo, git_ref, path: sub } => {
            let owned = path::join(cache_dir, owner.as_str());
            let named = path::join(owned.as_str(), repo.as_str());
            let dir = path::join(named.as_str(), git_ref.as_str());
            let action_dir = match sub {
                Some(p) => path::join(dir.as_str(), p.as_str()),
                None => dir.clone(),
            };
            Ok(ActionPlace { action_dir, cache_dir: Some(dir) })
        },
        ActionSource::Local { path: p } => Ok(
            ActionPlace { action_dir: path::join(workspace_dir, p.as_str()), cache_dir: None },
        ),
        ActionSource::Docker { image } => Err(
            text::cat3(
                "Docker action '",
                image.as_str(),
                "' should be handled before get_action is called",
            ),
        ),
    }
}

/// Where the tarball of an action is.
pub open spec fn tarball_url_of(owner: Seq<char>, repo: Seq<char>, git_ref: Seq<char>) -> Seq<char> {
    "https://api.github.com/repos/"@ + owner + "/"@ + repo + "/tarball/"@ + git_ref
}

pub fn tarball_url(owner: &str, repo: &str, git_ref: &str) -> (r: String)
    ensures
        r@ == tarball_url_of(owner@, repo@, git_ref@),
{
    let mut r: String = text::cat3("https://api.github.com/repos/", owner, "/");
    r.append(repo);
    r.append("/tarball/");
    r.append(git_ref);
    r
}

/// The headers with which a tarball is asked for.
pub fn tarball_headers(access_token: &str) -> (r: Vec<(String, String)>)
    ensures
        str_map::pair_texts(r@) == seq![
            ("Authorization"@, "token "@ + access_token@),
            ("Accept"@, "application/vnd.github+json"@),
            ("User-Agent"@, "chimera"@),
        ],
{
    let mut r: Vec<(String, String)> = Vec::new();
    r.push(("Authorization".to_owned(), text::cat("token ", access_token)));
    r.push(("Accept".to_owned(), "application/vnd.github+json".to_owned()));
    r.push(("User-Agent".to_owned(), "chimera".to_owned()));
    assert(str_map::pair_texts(r@) =~= seq![
        ("Authorization"@, "token "@ + access_token@),
        ("Accept"@, "application/vnd.github+json"@),
        ("User-Agent"@, "chimera"@),
    ]);
    r
}

/// The directory in which a tarball is unpacked before it takes its place: beside it, with a name of
/// its own.
pub open spec fn temp_dir_of(dest: Seq<char>, id: Seq<char>) -> Option<Seq<char>> {
    let name = match path::file_name_of(dest) {
        Some(n) => n,
        None => "action"@,
    };
    match path::parent_of(dest) {
        Some(p) => Some(path::below(p, name + ".tmp-"@ + id)),
        None => None,
    }
}

pub fn temp_dir(dest: &str, id: &str) -> (r: Option<String>)
    ensures
        text::opt(r) == temp_dir_of(dest@, id@),
{
    let name = match path::file_name(dest) {
        Some(n) => n,
        None => "action".to_owned(),
    };
    match path::parent(dest) {
        Some(p) => {
            let temp = text::cat3(name.as_str(), ".tmp-", id);
            Some(path::join(p.as_str(), temp.as_str()))
        },
        None => None,
    }
}

/// Returns true if the path contains `..` components that could escape the destination.
pub fn has_path_traversal(p: &[u8]) -> (r: bool)
    ensures
        r == raw_path::climbs(p@),
{
    raw_path::has_parent_component(p)
}

/// A file or directory in a tarball.
pub struct TarEntry {
    pub path: Vec<u8>,
    pub is_dir: bool,
    pub data: Vec<u8>,
}

pub struct TarEntryV {
    pub path: Seq<u8>,
    pub is_dir: bool,
    pub data: Seq<u8>,
}

impl View for TarEntry {
    type V = TarEntryV;

    open spec fn view(&self) -> TarEntryV {
        TarEntryV { path: self.path@, is_dir: self.is_dir, data: self.data@ }
    }
}

pub open spec fn tar_model(v: Seq<TarEntry>) -> Seq<TarEntryV> {
    Seq::new(v.len(), |i: int| v[i]@)
}

/// What `tar::Archive` finds in the stream that `flate2::read::GzDecoder` makes of some bytes, or nothing
/// where either fails on the way.
pub uninterp spec fn tarball_entries(data: Seq<u8>) -> Option<Seq<TarEntryV>>;

/// Reads a gzipped tarball with `flate2::read::GzDecoder` and `tar::Archive::entries`: the bytes of the path
/// of each entry, whether it is a directory, and its bytes, in the order of the archive. What is found
/// depends on the bytes of the tarball alone.
#[verifier::external_body]
pub(crate) fn read_tarball(data: &[u8]) -> (r: Option<Vec<TarEntry>>)
    ensures
        match r {
            Some(v) => tarball_entries(data@) == Some(tar_model(v@)),
            None => tarball_entries(data@) is None,
        },
{
    let mut archive = tar::Archive::new(flate2::read::GzDecoder::new(data));
    let entries = archive.entries().ok()?;
    let read = entries.map(|entry| {
        let mut entry = entry?;
        let path = entry.path_bytes().into_owned();
        let is_dir = entry.header().entry_type().is_dir();
        let mut data = Vec::new();
        std::io::Read::read_to_end(&mut entry, &mut data)?;
        Ok(TarEntry { path, is_dir, data })
    });
    read.collect::<std::io::Result<Vec<TarEntry>>>().ok()
}

/// Something to be made below a directory.
pub struct Unpacked {
    pub target: Vec<u8>,
    /// The directory that has to be there first.
    pub parent: Option<Vec<u8>>,
    /// The bytes of a file; nothing for a directory.
    pub content: Option<Vec<u8>>,
}

pub struct UnpackedV {
    pub target: Seq<u8>,
    pub parent: Option<Seq<u8>>,
    pub content: Option<Seq<u8>>,
}

impl View for Unpacked {
    type V = UnpackedV;

    open spec fn view(&self) -> UnpackedV {
        UnpackedV {
            target: self.target@,
            parent: raw_path::opt(self.parent),
            content: raw_path::opt(self.content),
        }
    }
}

pub open spec fn unpacked_model(v: Seq<Unpacked>) -> Seq<UnpackedV> {
    Seq::new(v.len(), |i: int| v[i]@)
}

/// An entry is unpacked if it is below the first directory and does not climb out.
pub open spec fn wanted(e: TarEntryV) -> bool {
    raw_path::below_first(e.path).len() > 0 && !raw_path::climbs(raw_path::below_first(e.path))
}

/// What an entry becomes below a directory.
pub open spec fn unpacked_entry(e: TarEntryV, dest: Seq<u8>) -> UnpackedV {
    let target = raw_path::below(dest, raw_path::below_first(e.path));
    UnpackedV {
        target,
        parent: raw_path::parent_of(target),
        content: if e.is_dir {
            None
        } else {
            Some(e.data)
        },
    }
}

/// What the wanted entries become.
pub open spec fn unpacked(v: Seq<TarEntryV>, dest: Seq<u8>) -> Seq<UnpackedV>
    decreases v.len(),
{
    if v.len() == 0 {
        Seq::empty()
    } else if wanted(v.last()) {
        unpacked(v.drop_last(), dest).push(unpacked_entry(v.last(), dest))
    } else {
        unpacked(v.drop_last(), dest)
    }
}

/// Decides what the entries of a tarball become below a directory.
pub fn unpack_entries(entries: Vec<TarEntry>, dest: &[u8]) -> (r: Vec<Unpacked>)
    ensures
        unpacked_model(r@) == unpacked(tar_model(entries@), dest@),
{
    let ghost all = tar_model(entries@);
    let mut r: Vec<Unpacked> = Vec::new();
    let mut i: usize = 0;
    assert(unpacked_model(r@) =~= Seq::empty());
    while i < entries.len()
        invariant
            i <= entries@.len(),
            all == tar_model(entries@),
            unpacked_model(r@) == unpacked(all.take(i as int), dest@),
        decreases entries@.len() - i,
    {
        assert(all.take(i + 1).drop_last() =~= all.take(i as int));
        let e = &entries[i];
        assert(all[i as int] == e@);
        let stripped = raw_path::skip_first(e.path.as_slice());
        if stripped.len() > 0 && !has_path_traversal(stripped.as_slice()) {
            let target = raw_path::join(dest, stripped.as_slice());
            let parent = raw_path::parent(target.as_slice());
            let content: Option<Vec<u8>> = if e.is_dir {
                None
            } else {
                Some(slice_to_vec(e.data.as_slice()))
            };
            let ghost was = unpacked_model(r@);
            r.push(Unpacked { target, parent, content });
            assert(unpacked_model(r@) =~= was.push(unpacked_entry(e@, dest@)));
        }
        i = i + 1;
    }
    assert(all.take(i as int) =~= all);
    r
}

/// Unpacks a gzipped tarball below a directory: everything that is to be made there, in order.
pub fn extract_tarball(data: &[u8], dest: &[u8]) -> (r: Option<Vec<Unpacked>>)
    ensures
        match tarball_entries(data@) {
            Some(v) => r matches Some(u) && unpacked_model(u@) == unpacked(v, dest@),
            None => r is None,
        },
{
    match read_tarball(data) {
        Some(v) => Some(unpack_entries(v, dest)),
        None => None,
    }
}

/// What is unpacked stays below the directory: each target is a path in it that does not climb out.
pub proof fn law_unpacked_stays_below(v: Seq<TarEntryV>, dest: Seq<u8>, k: int)
    requires
        0 <= k < unpacked(v, dest).len(),
    ensures
        dest.is_prefix_of(unpacked(v, dest)[k].target),
        exists|i: int|
            0 <= i < v.len() && wanted(v[i]) && unpacked(v, dest)[k].target == raw_path::below(
                dest,
                raw_path::below_first(#[trigger] v[i].path),
            ) && !raw_path::climbs(raw_path::below_first(v[i].path)),
    decreases v.len(),
{
    if v.len() > 0 {
        let before = unpacked(v.drop_last(), dest);
        if k < before.len() {
            law_unpacked_stays_below(v.drop_last(), dest, k);
            let i = choose|i: int|
                0 <= i < v.drop_last().len() && wanted(v.drop_last()[i]) && unpacked(
                    v.drop_last(),
                    dest,
                )[k].target == raw_path::below(
                    dest,
                    raw_path::below_first(#[trigger] v.drop_last()[i].path),
                );
            assert(v[i].path == v.drop_last()[i].path);
            assert(v[i] == v.drop_last()[i]);
        } else {
            let i = v.len() - 1;
            raw_path::law_below_first_is_relative(v[i].path, dest);
            assert(wanted(v[i]));
            assert(unpacked(v, dest)[k].target == raw_path::below(
                dest,
                raw_path::below_first(v[i].path),
            ));
        }
    }
}

} // verus!
