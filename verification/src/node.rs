//! The Node runtimes that actions run on.
use vstd::prelude::*;
use vstd::slice::*;
use vstd::string::*;

use crate::job::action::download;
use crate::job::action::download::{TarEntry, TarEntryV};
use crate::path;
use crate::raw_path;
use crate::str_map;
use crate::str_map::StrMap;
use crate::text;

verus! {

/// Used for actions that declare a runtime we do not ship.
pub const DEFAULT_MAJOR: &'static str = "20";

/// The Node runtimes an action can ask for through `runs.using: node<major>`, with their versions.
pub open spec fn shipped() -> Seq<(Seq<char>, Seq<char>)> {
    seq![("20"@, "v20.18.3"@), ("24"@, "v24.19.0"@)]
}

/// The Node runtimes an action can ask for, with their versions. Each version is of its major, and one
/// of them is the one that is used for all others.
pub fn node_versions() -> (r: Vec<(String, String)>)
    ensures
        str_map::pair_texts(r@) == shipped(),
        forall|i: int|
            0 <= i < shipped().len() ==> text::begins(
                (#[trigger] shipped()[i]).1,
                "v"@ + shipped()[i].0 + "."@,
            ),
        exists|i: int| 0 <= i < shipped().len() && (#[trigger] shipped()[i]).0 == DEFAULT_MAJOR@,
{
    let mut r: Vec<(String, String)> = Vec::new();
    r.push(("20".to_owned(), "v20.18.3".to_owned()));
    r.push(("24".to_owned(), "v24.19.0".to_owned()));
    assert(str_map::pair_texts(r@) =~= shipped());
    proof {
        reveal_strlit("20");
        reveal_strlit("24");
        reveal_strlit("v");
        reveal_strlit(".");
        reveal_strlit("v20.18.3");
        reveal_strlit("v24.19.0");
        assert("v20.18.3"@.subrange(0, 4) =~= "v"@ + "20"@ + "."@);
        assert("v24.19.0"@.subrange(0, 4) =~= "v"@ + "24"@ + "."@);
        assert(shipped()[0].0 == DEFAULT_MAJOR@);
    }
    r
}

/// The Node binaries available to node actions, keyed by major version.
pub struct NodeRuntimes {
    by_major: StrMap<String>,
    default_path: String,
}

/// What a [`NodeRuntimes`] is.
pub struct NodeRuntimesV {
    pub by_major: Map<Seq<char>, Seq<char>>,
    pub default_path: Seq<char>,
}

impl View for NodeRuntimes {
    type V = NodeRuntimesV;

    closed spec fn view(&self) -> NodeRuntimesV {
        NodeRuntimesV { by_major: self.by_major@, default_path: self.default_path@ }
    }
}

/// The binary for a runtime. What is not there is replaced by the default.
pub open spec fn binary_for(r: NodeRuntimesV, major: Option<Seq<char>>) -> Seq<char> {
    match major {
        Some(m) => if r.by_major.dom().contains(m) {
            r.by_major[m]
        } else {
            r.default_path
        },
        None => r.default_path,
    }
}

/// The name of the directory that holds a binary: that above `bin`.
pub open spec fn runtime_dir(bin: Seq<char>) -> Option<Seq<char>> {
    match path::parent_of(bin) {
        Some(p) => match path::parent_of(p) {
            Some(d) => path::file_name_of(d),
            None => None,
        },
        None => None,
    }
}

/// Where a binary is found below another root.
pub open spec fn remapped_path(root: Seq<char>, dir: Seq<char>) -> Seq<char> {
    root + "/"@ + dir + "/bin/node"@
}

/// The binaries as they are found below another root.
pub open spec fn remapped_to(r: NodeRuntimesV, root: Seq<char>) -> Map<Seq<char>, Seq<char>> {
    Map::new(
        |m: Seq<char>| r.by_major.dom().contains(m) && runtime_dir(r.by_major[m]) is Some,
        |m: Seq<char>| remapped_path(root, runtime_dir(r.by_major[m])->Some_0),
    )
}

fn find_runtime_dir(bin: &str) -> (r: Option<String>)
    ensures
        text::opt(r) == runtime_dir(bin@),
{
    match path::parent(bin) {
        Some(p) => match path::parent(p.as_str()) {
            Some(d) => path::file_name(d.as_str()),
            None => None,
        },
        None => None,
    }
}

impl NodeRuntimes {
    /// The given binaries, with one of them for everything else.
    pub fn new(by_major: StrMap<String>, default_path: String) -> (r: NodeRuntimes)
        ensures
            r@ == (NodeRuntimesV { by_major: by_major@, default_path: default_path@ }),
    {
        NodeRuntimes { by_major, default_path }
    }

    /// A set backed by one binary, where every declared runtime resolves to it.
    pub fn single(path: String) -> (r: NodeRuntimes)
        ensures
            r@ == (NodeRuntimesV {
                by_major: str_map::inserted(
                    Map::empty(),
                    Seq::new(shipped().len(), |i: int| (shipped()[i].0, path@)),
                ),
                default_path: path@,
            }),
            forall|m: Option<Seq<char>>| #[trigger] binary_for(r@, m) == path@,
    {
        let versions = node_versions();
        let ghost all = Seq::new(shipped().len(), |i: int| (shipped()[i].0, path@));
        let ghost none = Map::<Seq<char>, Seq<char>>::empty();
        let mut by_major: StrMap<String> = StrMap::new();
        let mut i: usize = 0;
        assert(str_map::pair_texts(versions@).len() == versions@.len());
        while i < versions.len()
            invariant
                i <= versions@.len(),
                str_map::pair_texts(versions@) == shipped(),
                versions@.len() == shipped().len(),
                all == Seq::new(shipped().len(), |i: int| (shipped()[i].0, path@)),
                none == Map::<Seq<char>, Seq<char>>::empty(),
                by_major@ == str_map::inserted(none, all.take(i as int)),
                forall|m: Seq<char>| #[trigger]
                    by_major@.dom().contains(m) ==> by_major@[m] == path@,
            decreases versions@.len() - i,
        {
            assert(all.take(i + 1).drop_last() =~= all.take(i as int));
            assert(versions@[i as int].0@ == str_map::pair_texts(versions@)[i as int].0);
            by_major.insert(versions[i].0.clone(), path.clone());
            i = i + 1;
        }
        assert(all.take(i as int) =~= all);
        NodeRuntimes { by_major, default_path: path }
    }

    /// The binary for the runtime an action declared.
    ///
    /// Anything we do not have falls back to the default rather than failing the step.
    pub fn resolve(&self, major: Option<&str>) -> (r: &str)
        ensures
            r@ == binary_for(self@, text::opt_str(major)),
    {
        match major {
            Some(m) => match self.by_major.get(m) {
                Some(p) => p.as_str(),
                None => self.default_path.as_str(),
            },
            None => self.default_path.as_str(),
        }
    }

    /// The same set of runtimes as seen from somewhere else in the filesystem —
    /// a container that has the externals directory bind-mounted at `root`.
    pub fn remapped(&self, root: &str) -> (r: StrMap<String>)
        ensures
            r@ == remapped_to(self@, root@),
    {
        let ghost pairs = self.by_major.pairs();
        let n: usize = self.by_major.len();
        let mut r: StrMap<String> = StrMap::new();
        let mut i: usize = 0;
        while i < n
            invariant
                n == pairs.len(),
                pairs == self.by_major.pairs(),
                str_map::keys_differ(pairs),
                i <= n,
                forall|m: Seq<char>| #[trigger]
                    r@.dom().contains(m) <==> exists|j: int|
                        0 <= j < i && #[trigger] pairs[j].0 == m && runtime_dir(pairs[j].1) is Some,
                forall|j: int|
                    0 <= j < i && runtime_dir((#[trigger] pairs[j]).1) is Some ==> r@[pairs[j].0]
                        == remapped_path(root@, runtime_dir(pairs[j].1)->Some_0),
            decreases n - i,
        {
            let bin = self.by_major.value(i);
            if let Some(dir) = find_runtime_dir(bin.as_str()) {
                let mut place: String = text::cat3(root, "/", dir.as_str());
                place.append("/bin/node");
                let ghost was = r@;
                r.insert(self.by_major.key(i).clone(), place);
                proof {
                    let k = pairs[i as int].0;
                    assert forall|m: Seq<char>| #[trigger] r@.dom().contains(m) <==> exists|j: int|
                        0 <= j < i + 1 && #[trigger] pairs[j].0 == m && runtime_dir(
                            pairs[j].1,
                        ) is Some by {
                        if was.dom().contains(m) {
                            let j = choose|j: int|
                                0 <= j < i && #[trigger] pairs[j].0 == m && runtime_dir(
                                    pairs[j].1,
                                ) is Some;
                            assert(pairs[j].0 == m);
                        }
                        if m == k {
                            assert(pairs[i as int].0 == m);
                        }
                    }
                }
            }
            i = i + 1;
        }
        proof {
            assert forall|m: Seq<char>|
                r@.dom().contains(m) <==> remapped_to(self@, root@).dom().contains(m) by {
                if r@.dom().contains(m) {
                    let j = choose|j: int|
                        0 <= j < n && #[trigger] pairs[j].0 == m && runtime_dir(pairs[j].1) is Some;
                    str_map::lemma_map_of(pairs, j);
                }
                if remapped_to(self@, root@).dom().contains(m) {
                    let j = choose|j: int| 0 <= j < pairs.len() && #[trigger] pairs[j].0 == m;
                    str_map::lemma_map_of(pairs, j);
                }
            }
            assert forall|m: Seq<char>| r@.dom().contains(m) implies r@[m] == remapped_to(
                self@,
                root@,
            )[m] by {
                let j = choose|j: int|
                    0 <= j < n && #[trigger] pairs[j].0 == m && runtime_dir(pairs[j].1) is Some;
                str_map::lemma_map_of(pairs, j);
            }
            assert(r@ =~= remapped_to(self@, root@));
        }
        r
    }
}

/// The binaries that could be had, by major version.
pub open spec fn provisioned(s: Seq<(Seq<char>, Option<Seq<char>>)>) -> Map<Seq<char>, Seq<char>>
    decreases s.len(),
{
    if s.len() == 0 {
        Map::empty()
    } else {
        match s.last().1 {
            Some(p) => provisioned(s.drop_last()).insert(s.last().0, p),
            None => provisioned(s.drop_last()),
        }
    }
}

pub open spec fn found_model(v: Seq<(String, Option<String>)>) -> Seq<
    (Seq<char>, Option<Seq<char>>),
> {
    Seq::new(v.len(), |i: int| (v[i].0@, text::opt(v[i].1)))
}

/// Puts together the binaries that could be had. Without the default there is no set; the others may be
/// missing.
pub fn collect_runtimes(found: &Vec<(String, Option<String>)>) -> (r: Option<NodeRuntimes>)
    ensures
        ({
            let all = provisioned(found_model(found@));
            if all.dom().contains(DEFAULT_MAJOR@) {
                r matches Some(n) && n@ == (NodeRuntimesV {
                    by_major: all,
                    default_path: all[DEFAULT_MAJOR@],
                })
            } else {
                r is None
            }
        }),
{
    let ghost s = found_model(found@);
    let mut by_major: StrMap<String> = StrMap::new();
    let mut i: usize = 0;
    while i < found.len()
        invariant
            i <= found@.len(),
            s == found_model(found@),
            by_major@ == provisioned(s.take(i as int)),
        decreases found@.len() - i,
    {
        assert(s.take(i + 1).drop_last() =~= s.take(i as int));
        assert(s[i as int] == (found@[i as int].0@, text::opt(found@[i as int].1)));
        if let Some(p) = &found[i].1 {
            by_major.insert(found[i].0.clone(), p.clone());
        }
        i = i + 1;
    }
    assert(s.take(i as int) =~= s);
    let default_path: String = match by_major.get(DEFAULT_MAJOR) {
        Some(p) => p.clone(),
        None => {
            return None;
        },
    };
    Some(NodeRuntimes { by_major, default_path })
}

/// Where a runtime is, and where it comes from.
pub struct NodePlace {
    pub dir_name: String,
    pub node_dir: String,
    pub node_bin: String,
    pub url: String,
}

pub struct NodePlaceV {
    pub dir_name: Seq<char>,
    pub node_dir: Seq<char>,
    pub node_bin: Seq<char>,
    pub url: Seq<char>,
}

impl View for NodePlace {
    type V = NodePlaceV;

    open spec fn view(&self) -> NodePlaceV {
        NodePlaceV {
            dir_name: self.dir_name@,
            node_dir: self.node_dir@,
            node_bin: self.node_bin@,
            url: self.url@,
        }
    }
}

/// The architecture as Node calls it.
pub open spec fn node_arch(arch: Seq<char>) -> Seq<char> {
    if arch == "x86_64"@ || arch == "x86"@ {
        "x64"@
    } else if arch == "aarch64"@ {
        "arm64"@
    } else {
        arch
    }
}

/// The operating system as Node calls it.
pub open spec fn node_os(os: Seq<char>) -> Seq<char> {
    if os == "macos"@ {
        "darwin"@
    } else {
        os
    }
}

/// Where a runtime for a platform is, and where it comes from.
pub open spec fn place_of(
    externals: Seq<char>,
    os: Seq<char>,
    arch: Seq<char>,
    major: Seq<char>,
    version: Seq<char>,
) -> NodePlaceV {
    let dir_name = "node"@ + major + "-"@ + node_os(os) + "-"@ + node_arch(arch);
    let node_dir = path::below(externals, dir_name);
    NodePlaceV {
        dir_name,
        node_dir,
        node_bin: path::below(path::below(node_dir, "bin"@), "node"@),
        url: "https://nodejs.org/dist/"@ + version + "/node-"@ + version + "-"@ + node_os(os)
            + "-"@ + node_arch(arch) + ".tar.gz"@,
    }
}

/// Find where a runtime for a platform is, and where it comes from.
pub fn node_place(externals_dir: &str, os: &str, arch: &str, major: &str, version: &str) -> (r:
    NodePlace)
    ensures
        r@ == place_of(externals_dir@, os@, arch@, major@, version@),
{
    let arch: &str = if text::same(arch, "x86_64") || text::same(arch, "x86") {
        "x64"
    } else if text::same(arch, "aarch64") {
        "arm64"
    } else {
        arch
    };
    let os: &str = if text::same(os, "macos") {
        "darwin"
    } else {
        os
    };
    let mut dir_name: String = text::cat3("node", major, "-");
    dir_name.append(os);
    dir_name.append("-");
    dir_name.append(arch);
    let node_dir = path::join(externals_dir, dir_name.as_str());
    let bin = path::join(node_dir.as_str(), "bin");
    let node_bin = path::join(bin.as_str(), "node");
    let mut url: String = text::cat3("https://nodejs.org/dist/", version, "/node-");
    url.append(version);
    url.append("-");
    url.append(os);
    url.append("-");
    url.append(arch);
    url.append(".tar.gz");
    NodePlace { dir_name, node_dir, node_bin, url }
}

/// The directory in which a runtime is unpacked before it takes its place.
pub fn temp_node_dir(externals_dir: &str, dir_name: &str, id: &str) -> (r: String)
    ensures
        r@ == path::below(externals_dir@, dir_name@ + ".tmp-"@ + id@),
{
    let name = text::cat3(dir_name, ".tmp-", id);
    path::join(externals_dir, name.as_str())
}

/// The last binary in a tarball: the file at `bin/node` below the first directory.
pub open spec fn node_binary_in(v: Seq<TarEntryV>) -> Option<Seq<u8>>
    decreases v.len(),
{
    if v.len() == 0 {
        None
    } else if raw_path::below_first(v.last().path) == "bin/node".spec_bytes() {
        Some(v.last().data)
    } else {
        node_binary_in(v.drop_last())
    }
}

/// Finds the Node binary among the entries of a tarball.
pub fn find_node_binary(entries: &Vec<TarEntry>) -> (r: Option<&Vec<u8>>)
    ensures
        match r {
            Some(b) => node_binary_in(download::tar_model(entries@)) == Some(b@),
            None => node_binary_in(download::tar_model(entries@)) is None,
        },
{
    let ghost all = download::tar_model(entries@);
    let mut n: usize = entries.len();
    assert(all.take(n as int) =~= all);
    while n > 0
        invariant
            n <= entries@.len(),
            all == download::tar_model(entries@),
            node_binary_in(all) == node_binary_in(all.take(n as int)),
        decreases n,
    {
        assert(all.take(n as int).drop_last() =~= all.take(n - 1));
        assert(all[n - 1] == entries@[n - 1]@);
        let stripped = raw_path::skip_first(entries[n - 1].path.as_slice());
        if raw_path::same(stripped.as_slice(), "bin/node".as_bytes()) {
            return Some(&entries[n - 1].data);
        }
        n = n - 1;
    }
    None
}

/// Unpacks the Node binary from a gzipped tarball.
pub fn extract_node_binary(data: &[u8]) -> (r: Option<Vec<u8>>)
    ensures
        match download::tarball_entries(data@) {
            Some(v) => match node_binary_in(v) {
                Some(b) => r matches Some(x) && x@ == b,
                None => r is None,
            },
            None => r is None,
        },
{
    match download::read_tarball(data) {
        Some(v) => match find_node_binary(&v) {
            Some(b) => Some(slice_to_vec(b.as_slice())),
            None => None,
        },
        None => None,
    }
}

} // verus!
