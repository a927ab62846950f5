use chimera::job::workspace::{parse_env_file, parse_path_file, Workspace};
use chimera::path;
use chimera::raw_path;

fn make_workspace() -> Workspace {
    Workspace::layout(
        "/root/work",
        "/root/tmp",
        "/root/tool-cache",
        "runner-0",
        "owner/repo",
    )
    .unwrap()
}

#[test]
fn workspace_layout() {
    let ws = make_workspace();
    assert_eq!(ws.workspace_dir(), "/root/work/runner-0/repo/repo");
    assert!(ws.workspace_dir().contains("runner-0/repo/repo"));
    assert_eq!(ws.runner_temp(), "/root/tmp/runner-0");
    assert_eq!(ws.tool_cache(), "/root/tool-cache");
    assert_eq!(ws.env_file(), "/root/work/runner-0/repo/_env");
    assert_eq!(ws.path_file(), "/root/work/runner-0/repo/_path");
    assert_eq!(ws.output_file(), "/root/work/runner-0/repo/_output");
    assert_eq!(ws.state_file(), "/root/work/runner-0/repo/_state");
    assert_eq!(ws.step_summary_file(), "/root/work/runner-0/repo/_step_summary");
    assert_eq!(ws.event_file(), "/root/work/runner-0/repo/_event.json");
    assert_eq!(ws.runner_work().unwrap(), "/root/work/runner-0");
    assert_eq!(
        ws.step_files(),
        vec![
            ws.output_file(),
            ws.env_file(),
            ws.path_file(),
            ws.state_file(),
            ws.step_summary_file()
        ]
    );
}

#[test]
fn read_env_file_key_value() {
    let env = parse_env_file("FOO=bar\nBAZ=qux\n");
    assert_eq!(env.get("FOO").unwrap(), "bar");
    assert_eq!(env.get("BAZ").unwrap(), "qux");
}

#[test]
fn read_env_file_heredoc() {
    let env = parse_env_file("MULTI<<EOF\nline1\nline2\nEOF\nSIMPLE=val\n");
    assert_eq!(env.get("MULTI").unwrap(), "line1\nline2");
    assert_eq!(env.get("SIMPLE").unwrap(), "val");
}

#[test]
fn read_path_file_one_per_line() {
    let paths = parse_path_file("/usr/local/bin\n/opt/bin\n");
    assert_eq!(paths, vec!["/usr/local/bin", "/opt/bin"]);
}

#[test]
fn empty_files_return_empty_results() {
    assert_eq!(parse_env_file("").len(), 0);
    assert!(parse_path_file("").is_empty());
}

#[test]
fn env_file_edges() {
    let env = parse_env_file("A=1\r\n\nnothing\nA=2\nB=x=y\nOPEN<<END\nrest");
    assert_eq!(env.get("A").unwrap(), "2");
    assert_eq!(env.get("B").unwrap(), "x=y");
    assert_eq!(env.get("OPEN").unwrap(), "rest");
    assert_eq!(env.len(), 3);
    assert_eq!(parse_env_file("E<<EOF\nEOF\n").get("E").unwrap(), "");
    let env = parse_env_file("FOO=a<<b\nBAR=1\n");
    assert_eq!(env.get("FOO").unwrap(), "a<<b");
    assert_eq!(env.get("BAR").unwrap(), "1");
    assert_eq!(env.len(), 2);
    let env = parse_env_file("K<<A=B\nx=y\nA=B\nZ=<<\n");
    assert_eq!(env.get("K").unwrap(), "x=y");
    assert_eq!(env.get("Z").unwrap(), "<<");
    assert_eq!(env.len(), 2);
}

#[test]
fn paths_agree_with_the_standard_library() {
    let samples = [
        "", "/", ".", "..", "a", "a/", "a/b", "/a", "/a/b", "/a/b/", "a//b", "a/./b", "a/b/.", "./a",
        "/.", "//a", "a/..", "/a/../b", "a/b//", "a/.b",
    ];
    for a in samples {
        let std_path = std::path::Path::new(a);
        assert_eq!(
            path::parent(a),
            std_path.parent().map(|p| p.to_str().unwrap().to_string()),
            "parent of {a:?}"
        );
        assert_eq!(
            path::file_name(a),
            std_path.file_name().map(|p| p.to_str().unwrap().to_string()),
            "file name of {a:?}"
        );
        assert_eq!(
            raw_path::parent(a.as_bytes()),
            std_path.parent().map(|p| p.to_str().unwrap().as_bytes().to_vec()),
            "parent of {a:?}"
        );
        let rest: std::path::PathBuf = std_path.components().skip(1).collect();
        assert_eq!(
            raw_path::skip_first(a.as_bytes()),
            rest.to_str().unwrap().as_bytes(),
            "rest of {a:?}"
        );
        assert_eq!(
            raw_path::has_parent_component(a.as_bytes()),
            std_path
                .components()
                .any(|c| matches!(c, std::path::Component::ParentDir)),
            "parent component in {a:?}"
        );
        for b in samples {
            assert_eq!(
                path::join(a, b),
                std_path.join(b).to_str().unwrap(),
                "{a:?} joined with {b:?}"
            );
            assert_eq!(
                raw_path::join(a.as_bytes(), b.as_bytes()),
                std_path.join(b).to_str().unwrap().as_bytes(),
                "{a:?} joined with {b:?}"
            );
        }
    }
}
