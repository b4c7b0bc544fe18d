//! The GitHub Actions workflow that runs gh-sync on a schedule.
use vstd::prelude::*;

use crate::text::{
    avoids_placeholder, chars_of, contains, flatten, is_placeholder, lemma_avoiding_no_match,
    lemma_guarded_no_match, lemma_replace_chunks, no_match_starts_in, occurs_at, push_str, replace_all,
    replace_chars, string_from_chars,
};

verus! {

/// Default output path for the generated workflow file.
pub const WORKFLOW_PATH: &'static str = ".github/workflows/gh-sync.yaml";

/// Workflow template with `{{version}}`, `{{sha}}`, and `{{upstream_manifest_line}}` placeholders.
pub const TEMPLATE: &'static str = "\
# yaml-language-server: $schema=https://json.schemastore.org/github-workflow.json
name: gh-sync
on:
  schedule:
    - cron: \"0 18 * * *\" # daily at 03:00 JST
  workflow_dispatch:

permissions: {}

concurrency:
  group: gh-sync
  cancel-in-progress: true

jobs:
  gh-sync:
    name: file-sync
    runs-on: ubuntu-latest
    timeout-minutes: 10
    permissions:
      contents: write # Required to create branches and push commits
      pull-requests: write # Required to create pull requests
    steps:
      - uses: actions/checkout@de0fac2e4500dabe0009e67214ff5f5447ce83dd # v6.0.2
        with:
          persist-credentials: false

      - uses: naa0yama/gh-sync@{{sha}} # {{version}}
        with:
          token: ${{ secrets.GITHUB_TOKEN }}
          version: {{version}}
{{upstream_manifest_line}}
          apply-files: \"true\"

      - name: Create PR if changed
        env:
          GITHUB_TOKEN: ${{ secrets.GITHUB_TOKEN }}
        run: |
          gh-sync pr \\
            --title \"chore: sync files from upstream template\" \\
            --body \"Automated file sync by gh-sync scheduled workflow.\" \\
            --branch-prefix \"gh-sync/file-sync\"
";

/// Line emitted when no upstream manifest is known: a commented-out example.
pub const UPSTREAM_MANIFEST_COMMENT: &'static str = "          # upstream-manifest: owner/repo@main:.github/gh-sync/config.yaml";

/// The `upstream-manifest` input line of the workflow.
pub open spec fn upstream_manifest_line(upstream_manifest: Option<Seq<char>>) -> Seq<char> {
    match upstream_manifest {
        Some(v) => "          upstream-manifest: "@ + v,
        None => UPSTREAM_MANIFEST_COMMENT@,
    }
}

/// The optional manifest reference, as plain values.
pub open spec fn opt_str_view(o: Option<&str>) -> Option<Seq<char>> {
    match o {
        Some(s) => Some(s@),
        None => None,
    }
}

/// The rendered workflow: `{{version}}`, then `{{sha}}`, then
/// `{{upstream_manifest_line}}` replaced in the template, in that order.
pub open spec fn rendered(version: Seq<char>, sha: Seq<char>, upstream_manifest: Option<Seq<char>>) -> Seq<char> {
    replace_all(
        replace_all(replace_all(TEMPLATE@, "{{version}}"@, version), "{{sha}}"@, sha),
        "{{upstream_manifest_line}}"@,
        upstream_manifest_line(upstream_manifest),
    )
}

/// The template up to its `{{sha}}` placeholder.
pub open spec fn before_sha() -> Seq<char> {
    "# yaml-language-server: $schema=https://json.schemastore.org/github-workflow.json\nname: gh-sync\non:\n  schedule:\n    - cron: \"0 18 * * *\" # daily at 03:00 JST\n  workflow_dispatch:\n\npermissions: {}\n\nconcurrency:\n  group: gh-sync\n  cancel-in-progress: true\n\njobs:\n  gh-sync:\n    name: file-sync\n    runs-on: ubuntu-latest\n    timeout-minutes: 10\n    permissions:\n      contents: write # Required to create branches and push commits\n      pull-requests: write # Required to create pull requests\n    steps:\n      - uses: actions/checkout@de0fac2e4500dabe0009e67214ff5f5447ce83dd # v6.0.2\n        with:\n          persist-credentials: false\n\n      - uses: naa0yama/gh-sync@"@
}

/// The template between `{{version}}` in the `uses:` comment and the
/// `version:` input's value.
pub open spec fn before_version_input() -> Seq<char> {
    "\n        with:\n          token: ${{ secrets.GITHUB_TOKEN }}\n          version: "@
}

/// The template after its `{{upstream_manifest_line}}` placeholder.
pub open spec fn after_manifest_line() -> Seq<char> {
    "\n          apply-files: \"true\"\n\n      - name: Create PR if changed\n        env:\n          GITHUB_TOKEN: ${{ secrets.GITHUB_TOKEN }}\n        run: |\n          gh-sync pr \\\n            --title \"chore: sync files from upstream template\" \\\n            --body \"Automated file sync by gh-sync scheduled workflow.\" \\\n            --branch-prefix \"gh-sync/file-sync\"\n"@
}

proof fn lemma_flatten_skip(c: Seq<Seq<char>>, k: int)
    requires
        0 <= k < c.len(),
    ensures
        flatten(c.skip(k)) == c[k] + flatten(c.skip(k + 1)),
{
    assert(c.skip(k).drop_first() =~= c.skip(k + 1));
}

proof fn reveal_template_pieces()
    ensures
        TEMPLATE@ == flatten(
            seq![
                before_sha(),
                "{{sha}}"@,
                " # "@,
                "{{version}}"@,
                before_version_input(),
                "{{version}}"@,
                "\n"@,
                "{{upstream_manifest_line}}"@,
                after_manifest_line(),
            ],
        ),
        avoids_placeholder(before_sha(), 'v'),
        avoids_placeholder(before_sha(), 's'),
        avoids_placeholder(before_sha(), 'u'),
        avoids_placeholder(" # "@, 'v'),
        avoids_placeholder(" # "@, 's'),
        avoids_placeholder(" # "@, 'u'),
        avoids_placeholder(before_version_input(), 'v'),
        avoids_placeholder(before_version_input(), 's'),
        avoids_placeholder(before_version_input(), 'u'),
        avoids_placeholder("\n"@, 'v'),
        avoids_placeholder("\n"@, 's'),
        avoids_placeholder("\n"@, 'u'),
        avoids_placeholder(after_manifest_line(), 'v'),
        avoids_placeholder(after_manifest_line(), 's'),
        avoids_placeholder(after_manifest_line(), 'u'),
        avoids_placeholder("{{sha}}"@, 'v'),
        avoids_placeholder("{{sha}}"@, 'u'),
        avoids_placeholder("{{upstream_manifest_line}}"@, 'v'),
        avoids_placeholder("{{upstream_manifest_line}}"@, 's'),
        is_placeholder("{{version}}"@, 'v'),
        is_placeholder("{{sha}}"@, 's'),
        is_placeholder("{{upstream_manifest_line}}"@, 'u'),
        before_version_input().len() > 0 && before_version_input()[0] == '\n',
        !"{{sha}}"@.contains('\n'),
        !"{{upstream_manifest_line}}"@.contains('\n'),
        !"{{upstream_manifest_line}}"@.contains(' '),
        " # "@.len() > 0 && " # "@[0] == ' ',
        "\n"@.len() > 0 && "\n"@[0] == '\n',
{
    reveal_strlit("# yaml-language-server: $schema=https://json.schemastore.org/github-workflow.json\nname: gh-sync\non:\n  schedule:\n    - cron: \"0 18 * * *\" # daily at 03:00 JST\n  workflow_dispatch:\n\npermissions: {}\n\nconcurrency:\n  group: gh-sync\n  cancel-in-progress: true\n\njobs:\n  gh-sync:\n    name: file-sync\n    runs-on: ubuntu-latest\n    timeout-minutes: 10\n    permissions:\n      contents: write # Required to create branches and push commits\n      pull-requests: write # Required to create pull requests\n    steps:\n      - uses: actions/checkout@de0fac2e4500dabe0009e67214ff5f5447ce83dd # v6.0.2\n        with:\n          persist-credentials: false\n\n      - uses: naa0yama/gh-sync@");
    reveal_strlit(" # ");
    reveal_strlit("\n        with:\n          token: ${{ secrets.GITHUB_TOKEN }}\n          version: ");
    reveal_strlit("\n");
    reveal_strlit("\n          apply-files: \"true\"\n\n      - name: Create PR if changed\n        env:\n          GITHUB_TOKEN: ${{ secrets.GITHUB_TOKEN }}\n        run: |\n          gh-sync pr \\\n            --title \"chore: sync files from upstream template\" \\\n            --body \"Automated file sync by gh-sync scheduled workflow.\" \\\n            --branch-prefix \"gh-sync/file-sync\"\n");
    reveal_strlit("{{sha}}");
    reveal_strlit("{{version}}");
    reveal_strlit("{{upstream_manifest_line}}");
    reveal_strlit("\
# yaml-language-server: $schema=https://json.schemastore.org/github-workflow.json
name: gh-sync
on:
  schedule:
    - cron: \"0 18 * * *\" # daily at 03:00 JST
  workflow_dispatch:

permissions: {}

concurrency:
  group: gh-sync
  cancel-in-progress: true

jobs:
  gh-sync:
    name: file-sync
    runs-on: ubuntu-latest
    timeout-minutes: 10
    permissions:
      contents: write # Required to create branches and push commits
      pull-requests: write # Required to create pull requests
    steps:
      - uses: actions/checkout@de0fac2e4500dabe0009e67214ff5f5447ce83dd # v6.0.2
        with:
          persist-credentials: false

      - uses: naa0yama/gh-sync@{{sha}} # {{version}}
        with:
          token: ${{ secrets.GITHUB_TOKEN }}
          version: {{version}}
{{upstream_manifest_line}}
          apply-files: \"true\"

      - name: Create PR if changed
        env:
          GITHUB_TOKEN: ${{ secrets.GITHUB_TOKEN }}
        run: |
          gh-sync pr \\
            --title \"chore: sync files from upstream template\" \\
            --body \"Automated file sync by gh-sync scheduled workflow.\" \\
            --branch-prefix \"gh-sync/file-sync\"
");
    reveal_with_fuel(flatten, 10);
    assert(TEMPLATE@ =~= before_sha() + "{{sha}}"@ + " # "@ + "{{version}}"@ + before_version_input()
        + "{{version}}"@ + "\n"@ + "{{upstream_manifest_line}}"@ + after_manifest_line());
}

/// Rendering puts the release's commit SHA after the action's `@`, the
/// version in the trailing comment and in the `version:` input, and the
/// `upstream-manifest` line on its own line, leaving the rest of the
/// template as it is, provided no substituted value itself holds a
/// placeholder that is substituted after it.
pub proof fn law_render_substitutes(
    version: Seq<char>,
    sha: Seq<char>,
    upstream_manifest: Option<Seq<char>>,
)
    requires
        !contains(version, "{{sha}}"@),
        !contains(version, "{{upstream_manifest_line}}"@),
        !contains(sha, "{{upstream_manifest_line}}"@),
    ensures
        rendered(version, sha, upstream_manifest) == before_sha() + sha + " # "@ + version
            + before_version_input() + version + "\n"@ + upstream_manifest_line(upstream_manifest)
            + after_manifest_line(),
{
    reveal_template_pieces();
    let h = before_sha();
    let p2 = before_version_input();
    let t = after_manifest_line();
    let sep = " # "@;
    let nl = "\n"@;
    let vp = "{{version}}"@;
    let sp = "{{sha}}"@;
    let up = "{{upstream_manifest_line}}"@;
    let line = upstream_manifest_line(upstream_manifest);
    // `{{version}}`
    let c0 = seq![h, sp, sep, vp, p2, vp, nl, up, t];
    assert forall|k: int| 0 <= k < c0.len() implies #[trigger] c0[k] == vp || no_match_starts_in(
        c0[k],
        flatten(c0.skip(k + 1)),
        vp,
    ) by {
        if c0[k] != vp {
            assert(avoids_placeholder(c0[k], 'v'));
            lemma_avoiding_no_match(c0[k], flatten(c0.skip(k + 1)), vp, 'v');
        }
    }
    lemma_replace_chunks(c0, vp, version);
    let c1 = seq![h, sp, sep, version, p2, version, nl, up, t];
    assert(c0.map_values(|ch: Seq<char>| if ch == vp { version } else { ch }) =~= c1);
    // `{{sha}}`
    assert forall|k: int| 0 <= k < c1.len() implies #[trigger] c1[k] == sp || no_match_starts_in(
        c1[k],
        flatten(c1.skip(k + 1)),
        sp,
    ) by {
        if k == 3 || k == 5 {
            lemma_flatten_skip(c1, k + 1);
            lemma_guarded_no_match(version, flatten(c1.skip(k + 1)), sp);
        } else if k != 1 {
            assert(avoids_placeholder(c1[k], 's'));
            lemma_avoiding_no_match(c1[k], flatten(c1.skip(k + 1)), sp, 's');
        }
    }
    assert(version != sp) by {
        if version == sp {
            assert(version.subrange(0, sp.len() as int) =~= sp);
            assert(occurs_at(version, sp, 0));
        }
    }
    lemma_replace_chunks(c1, sp, sha);
    let c2 = seq![h, sha, sep, version, p2, version, nl, up, t];
    assert(c1.map_values(|ch: Seq<char>| if ch == sp { sha } else { ch }) =~= c2);
    // `{{upstream_manifest_line}}`
    assert forall|k: int| 0 <= k < c2.len() implies #[trigger] c2[k] == up || no_match_starts_in(
        c2[k],
        flatten(c2.skip(k + 1)),
        up,
    ) by {
        if k == 1 || k == 3 || k == 5 {
            lemma_flatten_skip(c2, k + 1);
            lemma_guarded_no_match(c2[k], flatten(c2.skip(k + 1)), up);
        } else if k != 7 {
            assert(avoids_placeholder(c2[k], 'u'));
            lemma_avoiding_no_match(c2[k], flatten(c2.skip(k + 1)), up, 'u');
        }
    }
    assert(version != up && sha != up) by {
        assert(up.subrange(0, up.len() as int) =~= up);
        assert(occurs_at(up, up, 0));
    }
    lemma_replace_chunks(c2, up, line);
    let c3 = seq![h, sha, sep, version, p2, version, nl, line, t];
    assert(c2.map_values(|ch: Seq<char>| if ch == up { line } else { ch }) =~= c3);
    reveal_with_fuel(flatten, 10);
    assert(flatten(c3) =~= h + sha + sep + version + p2 + version + nl + line + t);
}

/// Render the workflow template by substituting `{{version}}`, `{{sha}}`, and
/// `{{upstream_manifest_line}}`.
///
/// - `version`: the gh-sync release tag (e.g. `v0.1.0`).
/// - `sha`: the 40-character commit SHA that the release tag resolves to.
/// - `upstream_manifest`: when `Some`, emits an `upstream-manifest:` input line;
///   when `None`, emits a commented-out placeholder instead.
pub fn render(version: &str, sha: &str, upstream_manifest: Option<&str>) -> (out: String)
    ensures
        out@ == rendered(version@, sha@, opt_str_view(upstream_manifest)),
{
    let line: Vec<char> = match upstream_manifest {
        Some(v) => {
            let mut l = chars_of("          upstream-manifest: ");
            push_str(&mut l, v);
            l
        },
        None => chars_of(UPSTREAM_MANIFEST_COMMENT),
    };
    assert(line@ =~= upstream_manifest_line(opt_str_view(upstream_manifest)));
    let template = chars_of(TEMPLATE);
    let version_pat = chars_of("{{version}}");
    let sha_pat = chars_of("{{sha}}");
    let line_pat = chars_of("{{upstream_manifest_line}}");
    proof {
        reveal_strlit("{{version}}");
        reveal_strlit("{{sha}}");
        reveal_strlit("{{upstream_manifest_line}}");
    }
    let version_chars = chars_of(version);
    let sha_chars = chars_of(sha);
    let step1 = replace_chars(template.as_slice(), version_pat.as_slice(), version_chars.as_slice());
    let step2 = replace_chars(step1.as_slice(), sha_pat.as_slice(), sha_chars.as_slice());
    let step3 = replace_chars(step2.as_slice(), line_pat.as_slice(), line.as_slice());
    string_from_chars(step3.as_slice())
}

} // verus!
