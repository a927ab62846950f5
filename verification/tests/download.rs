use std::io::Write;

use chimera::job::action::download::{
    extract_tarball, get_action, has_path_traversal, tarball_headers, tarball_url, temp_dir,
};
use chimera::job::action::resolve::ActionSource;
use chimera::node::extract_node_binary;

/// Build a tarball by hand, with whatever paths are given.
fn make_unsafe_tarball(files: &[(&str, &[u8])]) -> Vec<u8> {
    let raw: Vec<(&[u8], &[u8])> = files.iter().map(|(p, c)| (p.as_bytes(), *c)).collect();
    make_raw_tarball(&raw)
}

fn make_raw_tarball(files: &[(&[u8], &[u8])]) -> Vec<u8> {
    let mut tar_bytes = Vec::new();
    for (path_bytes, content) in files {
        let mut header = [0u8; 512];
        header[..path_bytes.len()].copy_from_slice(path_bytes);
        header[100..108].copy_from_slice(b"0000644\0");
        let size_str = format!("{:011o}\0", content.len());
        header[124..136].copy_from_slice(size_str.as_bytes());
        header[156] = if path_bytes.ends_with(b"/") { b'5' } else { b'0' };
        header[257..263].copy_from_slice(b"ustar\0");
        header[263..265].copy_from_slice(b"00");
        header[148..156].copy_from_slice(b"        ");
        let cksum: u32 = header.iter().map(|&b| b as u32).sum();
        let cksum_str = format!("{:06o}\0 ", cksum);
        header[148..156].copy_from_slice(cksum_str.as_bytes());
        tar_bytes.extend_from_slice(&header);
        tar_bytes.extend_from_slice(content);
        let padding = (512 - (content.len() % 512)) % 512;
        tar_bytes.extend(vec![0u8; padding]);
    }
    tar_bytes.extend(vec![0u8; 1024]);

    let mut encoder = flate2::write::GzEncoder::new(Vec::new(), flate2::Compression::default());
    encoder.write_all(&tar_bytes).unwrap();
    encoder.finish().unwrap()
}

#[test]
fn path_traversal_entries_are_skipped() {
    let tarball = make_unsafe_tarball(&[
        ("owner-repo-abc123/action.yml", b"name: legit\n"),
        ("owner-repo-abc123/../escape.txt", b"malicious\n"),
        (
            "owner-repo-abc123/sub/../../etc/passwd",
            b"also malicious\n",
        ),
    ]);

    let made = extract_tarball(&tarball, b"/tmp/extracted").unwrap();
    assert_eq!(made.len(), 1);
    assert_eq!(made[0].target, b"/tmp/extracted/action.yml");
    assert_eq!(made[0].content.as_deref(), Some(&b"name: legit\n"[..]));
}

#[test]
fn has_path_traversal_detection() {
    assert!(has_path_traversal(b"../foo"));
    assert!(has_path_traversal(b"foo/../../bar"));
    assert!(!has_path_traversal(b"foo/bar"));
    assert!(!has_path_traversal(b"foo"));
    assert!(!has_path_traversal(b"./foo"));
    assert!(!has_path_traversal(b"foo/..bar"));
}

#[test]
fn tarball_extraction() {
    let tarball = make_unsafe_tarball(&[
        (
            "test-owner-test-action-abc123/action.yml",
            b"name: test-action\nruns:\n  using: node20\n  main: index.js\n",
        ),
        (
            "test-owner-test-action-abc123/index.js",
            b"console.log('hello');\n",
        ),
    ]);
    let dest = "/cache/test-owner/test-action/v1";
    let made = extract_tarball(&tarball, dest.as_bytes()).unwrap();
    assert_eq!(made.len(), 2);
    assert_eq!(made[0].target, format!("{dest}/action.yml").into_bytes());
    assert_eq!(
        made[0].content.as_deref(),
        Some(&b"name: test-action\nruns:\n  using: node20\n  main: index.js\n"[..])
    );
    assert_eq!(made[1].target, format!("{dest}/index.js").into_bytes());
    assert_eq!(
        made[1].content.as_deref(),
        Some(&b"console.log('hello');\n"[..])
    );
}

#[test]
fn directories_are_made_too() {
    let tarball = make_unsafe_tarball(&[
        ("prefix/", b""),
        ("prefix/dist/", b""),
        ("prefix/dist/index.js", b"console.log('hello');\n"),
    ]);
    let made = extract_tarball(&tarball, b"/d").unwrap();
    assert_eq!(made.len(), 2);
    assert_eq!(made[0].target, b"/d/dist");
    assert!(made[0].content.is_none());
    assert_eq!(made[1].target, b"/d/dist/index.js");
    assert_eq!(made[1].parent.as_deref(), Some(&b"/d/dist"[..]));
    assert_eq!(
        made[1].content.as_deref(),
        Some(&b"console.log('hello');\n"[..])
    );
    assert!(extract_tarball(b"not a tarball", b"/d").is_none());
}

#[test]
fn paths_keep_their_bytes() {
    let tarball = make_raw_tarball(&[
        (b"prefix/caf\xe9/\xff\xfe.txt", b"x"),
        (b"./prefix/a", b"y"),
        (b"/b//./c/", b""),
        (b"prefix", b"z"),
        (b"p\xff/../q", b"w"),
    ]);
    let made = extract_tarball(&tarball, b"/d\xe9/").unwrap();
    assert_eq!(made.len(), 3);
    assert_eq!(made[0].target, b"/d\xe9/caf\xe9/\xff\xfe.txt");
    assert_eq!(made[0].parent.as_deref(), Some(&b"/d\xe9/caf\xe9"[..]));
    assert_eq!(made[1].target, b"/d\xe9/prefix/a");
    assert_eq!(made[2].target, b"/d\xe9/b/c");
    assert!(made[2].content.is_none());
}

#[test]
fn node_binary_is_found_in_its_tarball() {
    let tarball = make_unsafe_tarball(&[
        ("node-v20/README.md", b"readme"),
        ("node-v20/bin/node", b"binary"),
    ]);
    assert_eq!(extract_node_binary(&tarball).as_deref(), Some(&b"binary"[..]));
    let other = make_unsafe_tarball(&[("node-v20/bin/npm", b"npm")]);
    assert!(extract_node_binary(&other).is_none());
}

#[test]
fn local_path_returns_workspace_join() {
    let source = ActionSource::Local {
        path: ".github/actions/my-action".into(),
    };
    let place = get_action("/cache", &source, "/workspace").ok().unwrap();
    assert_eq!(place.action_dir, "/workspace/.github/actions/my-action");
    assert!(place.cache_dir.is_none());
}

#[test]
fn docker_action_returns_error() {
    let source = ActionSource::Docker {
        image: "node:18".into(),
    };
    assert_eq!(
        get_action("/cache", &source, "/workspace").err().unwrap(),
        "Docker action 'node:18' should be handled before get_action is called"
    );
}

#[test]
fn remote_actions_are_cached_by_ref() {
    let source = ActionSource::Remote {
        owner: "actions".into(),
        repo: "cache".into(),
        git_ref: "v3".into(),
        path: Some("save".into()),
    };
    let place = get_action("/cache", &source, "/workspace").ok().unwrap();
    assert_eq!(place.cache_dir.as_deref(), Some("/cache/actions/cache/v3"));
    assert_eq!(place.action_dir, "/cache/actions/cache/v3/save");
    assert_eq!(
        temp_dir("/cache/actions/cache/v3", "id").unwrap(),
        "/cache/actions/cache/v3.tmp-id"
    );
    assert_eq!(
        tarball_url("actions", "cache", "v3"),
        "https://api.github.com/repos/actions/cache/tarball/v3"
    );
    assert_eq!(
        tarball_headers("tok")[0],
        ("Authorization".to_string(), "token tok".to_string())
    );
}
