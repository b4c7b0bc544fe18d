use gh_sync::pr::porcelain::try_parse_porcelain_output;
use gh_sync::pr::{base_branch, branch_name, commit_message_for, PrArgs, TreeEntry};
use gh_sync::runner::{CliError, GhOutput, GhRunner};

struct OneAnswer(&'static str);

impl GhRunner for OneAnswer {
    fn run(&mut self, _args: &[&str], _stdin: Option<&[u8]>) -> Result<GhOutput, CliError> {
        Ok(GhOutput {
            exit_code: Some(0),
            stdout: self.0.as_bytes().to_vec(),
            stderr: vec![],
        })
    }
}

fn args(commit_message: Option<&str>) -> PrArgs {
    PrArgs {
        title: String::from("the title"),
        body: String::new(),
        branch_prefix: String::from("gh-sync/auto"),
        base: None,
        commit_message: commit_message.map(String::from),
    }
}

#[test]
fn commit_message_defaults_to_title() {
    assert_eq!(commit_message_for(&args(None)), "the title");
    assert_eq!(commit_message_for(&args(Some("msg"))), "msg");
}

#[test]
fn branch_name_appends_timestamp() {
    assert_eq!(branch_name("gh-sync/auto", "1700000000"), "gh-sync/auto-1700000000");
}

#[test]
fn base_branch_uses_given_base_or_default_branch() {
    let mut runner = OneAnswer("develop\n");
    assert_eq!(base_branch(&mut runner, "o/r", Some(String::from("main"))).unwrap(), "main");
    assert_eq!(base_branch(&mut runner, "o/r", None).unwrap(), "develop");
}

#[test]
fn tree_entry_for_change() {
    let e = TreeEntry::for_change("a.txt", Some(String::from("sha1")));
    assert_eq!((e.path.as_str(), e.mode.as_str(), e.type_.as_str()), ("a.txt", "100644", "blob"));
    assert_eq!(e.sha.as_deref(), Some("sha1"));
    assert!(TreeEntry::for_change("gone.txt", None).sha.is_none());
}

#[test]
fn try_parse_rejects_lines_split_inside_a_character() {
    // "aé" puts byte 2 inside "é": the line cannot be sliced there.
    assert!(try_parse_porcelain_output("aé path\n").is_none());
    // "M€" puts byte 3 inside "€".
    assert!(try_parse_porcelain_output("MM€path\n").is_none());
    assert_eq!(
        try_parse_porcelain_output(" M ok\n").unwrap(),
        vec![(String::from("ok"), false)]
    );
}
