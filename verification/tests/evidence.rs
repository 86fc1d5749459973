use std::path::{Path, PathBuf};

use depotd::evidence::{
    is_image, is_managed, mark_managed, parse_manifest, preserve_proof, proof_section,
    render_proof, resolve_artifacts, upsert_proof, EvidenceArtifact, ResolvedArtifact,
    EvidenceStep, ShellEvidence, MANAGED_MARKER, PROOF_END, PROOF_START,
};
use depotd::error::Error;

fn resolved(url: &str, caption: &str) -> ResolvedArtifact {
    ResolvedArtifact::Url {
        url: url.to_owned(),
        caption: caption.to_owned(),
    }
}

fn text(path: PathBuf) -> String {
    path.to_string_lossy().to_string()
}

#[test]
fn the_manifest_reads_url_and_file_records_and_ignores_everything_else() {
    let stdout = "noise without a tab\n\nhttps://img.example/shot.png\tlogin screen\n  https://vid.example/clip.mp4\tthe flow  \n/tmp/clip.mp4\tthe upload  \n\tdropemptyurl\n";
    assert_eq!(
        parse_manifest(stdout),
        vec![
            EvidenceArtifact::Url {
                url: "https://img.example/shot.png".to_owned(),
                caption: "login screen".to_owned(),
            },
            EvidenceArtifact::Url {
                url: "https://vid.example/clip.mp4".to_owned(),
                caption: "the flow".to_owned(),
            },
            EvidenceArtifact::File {
                path: text(PathBuf::from("/tmp/clip.mp4")),
                caption: "the upload".to_owned(),
            },
        ]
    );
    assert!(parse_manifest("").is_empty());
}

#[test]
fn a_local_file_is_noted_not_attached_and_a_relative_path_resolves_against_the_worktree() {
    let worktree = Path::new("/work");
    let artifacts = parse_manifest("out/clip.mp4\tthe flow\n");
    let resolved = resolve_artifacts("/work", &artifacts);
    assert_eq!(
        resolved,
        vec![ResolvedArtifact::LocalFile {
            path: text(worktree.join("out/clip.mp4")),
            caption: "the flow".to_owned(),
        }]
    );
    assert!(!resolved[0].is_url(), "a local file is never a usable url");
    let body = render_proof(&resolved);
    assert!(body.contains("the flow"), "{body}");
    assert!(
        body.contains("cannot be attached to a pull request"),
        "{body}"
    );
    assert!(
        body.contains("Publish it at a URL and add that URL to the evidence manifest."),
        "{body}"
    );
    assert!(!body.contains("![the flow]"), "{body}");

    let absolute = parse_manifest("/tmp/clip.mp4\tthe upload\n");
    let resolved = resolve_artifacts("/work", &absolute);
    assert_eq!(
        resolved[0],
        ResolvedArtifact::LocalFile {
            path: text(PathBuf::from("/tmp/clip.mp4")),
            caption: "the upload".to_owned(),
        }
    );
}

#[test]
fn a_body_depot_owns_carries_the_managed_marker_once() {
    let marked = mark_managed("## Why\n\nsomething\n");
    assert!(marked.starts_with(MANAGED_MARKER), "{marked}");
    assert!(is_managed(&marked));
    assert!(!is_managed("## Why\n\nsomeone else's body\n"));
    assert!(!is_managed(""));
}

#[test]
fn images_embed_and_other_media_are_a_bare_url() {
    let artifacts = vec![
        resolved("https://img.example/shot.png", "login screen"),
        resolved("https://vid.example/clip.mp4", "the flow"),
    ];
    let body = render_proof(&artifacts);
    assert!(body.starts_with(PROOF_START), "{body}");
    assert!(body.ends_with(PROOF_END), "{body}");
    assert!(
        body.contains("![login screen](https://img.example/shot.png)"),
        "{body}"
    );
    assert!(
        body.contains("the flow\n\nhttps://vid.example/clip.mp4"),
        "{body}"
    );
    assert!(
        !body.contains("[the flow](https://vid.example/clip.mp4)"),
        "a video is not a markdown link: {body}"
    );
    let empty = render_proof(&[]);
    assert!(empty.contains("captured nothing"), "{empty}");
}

#[test]
fn image_detection_follows_the_url_extension_only() {
    assert!(is_image("https://example.test/a/b.PNG"));
    assert!(is_image("https://example.test/a.webp?token=1"));
    assert!(!is_image("https://example.test/a.mp4"));
    assert!(!is_image("https://example.test/noext"));
}

#[test]
fn the_proof_section_is_replaced_in_place() {
    let body = "## Why\n\nsome reasoning\n\n## Validation\n\ncargo test\n";
    let once = upsert_proof(body, &render_proof(&[resolved("https://a.test/x.mp4", "")]));
    assert!(once.contains("## Why"));
    assert!(once.contains("## Validation"));
    assert_eq!(once.matches("## Proof").count(), 1);

    let twice = upsert_proof(
        &once,
        &render_proof(&[resolved("https://a.test/y.mp4", "")]),
    );
    assert_eq!(twice.matches("## Proof").count(), 1);
    assert!(twice.contains("https://a.test/y.mp4"), "{twice}");
    assert!(!twice.contains("https://a.test/x.mp4"), "{twice}");
    assert!(twice.contains("## Validation"));
}

#[test]
fn a_fresh_body_keeps_the_owned_proof_section_across_a_describe_refresh() {
    let published = upsert_proof(
        "## Why\n\nold\n",
        &render_proof(&[resolved("https://a.test/x.mp4", "clip")]),
    );
    let refreshed = "## Why\n\nnew\n\n## Validation\n\ncargo test\n";
    let merged = preserve_proof(&published, refreshed);
    assert!(merged.contains("## Why\n\nnew"), "{merged}");
    assert!(merged.contains("https://a.test/x.mp4"), "{merged}");
    assert_eq!(merged.matches("## Proof").count(), 1);
    assert_eq!(preserve_proof("no proof here", refreshed), refreshed);
}

#[test]
fn the_section_reads_between_its_markers() {
    let body =
        "before\n<!-- depot-proof:start -->\n## Proof\nx\n<!-- depot-proof:end -->\nafter";
    assert_eq!(
        proof_section(body),
        Some("<!-- depot-proof:start -->\n## Proof\nx\n<!-- depot-proof:end -->")
    );
    assert_eq!(proof_section("nothing"), None);
    assert_eq!(
        proof_section("<!-- depot-proof:start -->unterminated"),
        None
    );
}

#[test]
fn marking_a_managed_body_again_changes_nothing() {
    let once = mark_managed("body");
    assert_eq!(mark_managed(&once), once);
}

#[test]
fn marking_trims_the_leading_whitespace_of_the_body() {
    assert_eq!(
        mark_managed("  \n## Why\n"),
        format!("{MANAGED_MARKER}\n\n## Why\n")
    );
}

#[test]
fn an_upserted_section_reads_back_exactly() {
    let proof = render_proof(&[resolved("https://a.test/x.png", "shot")]);
    for body in ["", "   \n", "## Why\n\nreasons\n", "a\n<!-- depot-proof:start -->old<!-- depot-proof:end -->\nb"] {
        let written = upsert_proof(body, &proof);
        assert_eq!(proof_section(&written), Some(proof.as_str()), "{written}");
    }
}

#[test]
fn a_second_upsert_leaves_the_body_as_one_upsert_would() {
    let first = render_proof(&[resolved("https://a.test/x.mp4", "")]);
    let second = render_proof(&[]);
    for body in ["", "## Why\n\nreasons\n\n", "a\n<!-- depot-proof:start -->old<!-- depot-proof:end -->\nb"] {
        assert_eq!(
            upsert_proof(&upsert_proof(body, &first), &second),
            upsert_proof(body, &second)
        );
    }
}

#[test]
fn an_upsert_into_an_empty_body_is_the_section_and_a_newline() {
    let proof = render_proof(&[]);
    assert_eq!(upsert_proof(" \n\t", &proof), format!("{proof}\n"));
    assert_eq!(
        upsert_proof("## Why\n\n", &proof),
        format!("## Why\n\n{proof}\n")
    );
}

#[test]
fn an_unterminated_start_marker_captures_the_appended_section() {
    let body = "<!-- depot-proof:start -->unterminated";
    let proof = render_proof(&[]);
    let written = upsert_proof(body, &proof);
    assert_eq!(
        proof_section(&written),
        Some(&written[..written.len() - 1])
    );
    assert_ne!(proof_section(&written), Some(proof.as_str()));
}

#[test]
fn the_empty_section_says_nothing_was_captured() {
    assert_eq!(
        render_proof(&[]),
        format!("{PROOF_START}\n## Proof\n\nThe evidence command ran but captured nothing for this commit.\n{PROOF_END}")
    );
}

#[test]
fn a_captioned_url_lists_caption_then_url() {
    assert_eq!(
        render_proof(&[resolved("https://a.test/x.mp4", "clip")]),
        format!("{PROOF_START}\n## Proof\n\nclip\n\nhttps://a.test/x.mp4\n\n{PROOF_END}")
    );
    assert_eq!(
        render_proof(&[resolved("https://a.test/x.PNG?t=1", "")]),
        format!("{PROOF_START}\n## Proof\n\n![evidence](https://a.test/x.PNG?t=1)\n\n{PROOF_END}")
    );
}

#[test]
fn the_evidence_command_sees_its_base_and_range() {
    let env = ShellEvidence.environment("abc123");
    assert_eq!(
        env,
        vec![
            ("DEPOT_EVIDENCE_BASE".to_string(), "abc123".to_string()),
            ("DEPOT_EVIDENCE_RANGE".to_string(), "abc123...HEAD".to_string()),
        ]
    );
}

#[test]
fn the_evidence_command_is_waited_for_until_its_deadline() {
    assert_eq!(ShellEvidence.step(Some(Some(3)), true), EvidenceStep::Finished { exit_code: 3 });
    assert_eq!(ShellEvidence.step(Some(None), false), EvidenceStep::Finished { exit_code: -1 });
    assert_eq!(ShellEvidence.step(None, true), EvidenceStep::TimedOut);
    assert_eq!(ShellEvidence.step(None, false), EvidenceStep::Wait);
    assert_eq!(
        ShellEvidence.timed_out(90),
        Error::Project("the evidence command timed out after 90 seconds".to_string())
    );
    assert_eq!(
        ShellEvidence.closed_stdout(),
        Error::Project("the evidence command closed its stdout".to_string())
    );
}
