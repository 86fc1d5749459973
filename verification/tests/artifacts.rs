use depotd::adapters::process::{Output, ProcessError};
use depotd::artifacts::{
    exactly_one_url, no_publish_command, publish_tail, publish_verdict, publisher_exited,
    publisher_failed_to_run, shell_arguments, staging_candidate, staging_error, Staged,
    StagingProblem,
};
use depotd::error::Error;

#[test]
fn exactly_one_distinct_url_is_accepted() {
    assert_eq!(
        exactly_one_url("uploading...\nhttps://cdn.test/a.png\n"),
        Ok("https://cdn.test/a.png".to_string())
    );
    assert_eq!(
        exactly_one_url("http://x.test/a http://x.test/a done"),
        Ok("http://x.test/a".to_string())
    );
    assert_eq!(
        exactly_one_url("ftp://x.test/a nothing"),
        Err("the publish command printed no http(s) URL".to_string())
    );
    assert_eq!(
        exactly_one_url("https://a.test https://b.test https://a.test"),
        Err("the publish command printed 2 different http(s) URLs: https://a.test, https://b.test".to_string())
    );
}

#[test]
fn a_missing_publish_command_shows_what_to_configure() {
    let Error::Config(message) = no_publish_command("/h/config.toml") else {
        panic!("not a configuration error");
    };
    assert!(message.starts_with(
        "no artifact publish command is configured: add publish_command under [artifacts] in /h/config.toml, for example"
    ));
    assert!(message.ends_with("must print exactly one http(s) URL."));
}

#[test]
fn staging_problems_name_the_file() {
    assert_eq!(
        staging_error("a.png", StagingProblem::Missing),
        Error::Project("artifact `a.png` does not exist".to_string())
    );
    assert_eq!(
        staging_error("dir", StagingProblem::NotAFile),
        Error::Project("artifact `dir` is not a regular file".to_string())
    );
    assert_eq!(
        staging_error("/", StagingProblem::NoFileName),
        Error::Project("artifact `/` has no file name".to_string())
    );
}

#[test]
fn a_taken_name_gets_a_numbered_suffix_before_its_extension() {
    assert_eq!(staging_candidate("/art", "shot.png", 0), "/art/shot.png");
    assert_eq!(staging_candidate("/art", "shot.png", 2), "/art/shot-2.png");
    assert_eq!(staging_candidate("/art", "archive.tar.gz", 1), "/art/archive.tar-1.gz");
    assert_eq!(staging_candidate("/art", "README", 3), "/art/README-3");
    assert_eq!(staging_candidate("/art", ".env", 1), "/art/.env-1");
}

#[test]
fn the_shell_is_handed_the_command() {
    assert_eq!(shell_arguments("up a", false), vec!["-c", "up a"]);
    assert_eq!(shell_arguments("up a", true), vec!["/C", "up a"]);
}

#[test]
fn a_failed_publish_quotes_the_tail_of_its_output() {
    let output = Output {
        status: Some(3),
        stdout: "  partial \n".to_string(),
        stderr: "denied: ".to_string(),
    };
    assert_eq!(publish_tail(&output), "denied: partial");
    assert_eq!(
        publisher_exited(&output, "/art/a.png"),
        Error::Project(
            "the artifact publish command exited 3: denied: partial; the file is kept at /art/a.png"
                .to_string()
        )
    );
    let long = Output { status: None, stdout: String::new(), stderr: "x".repeat(600) };
    assert_eq!(publish_tail(&long).len(), 512);
    assert!(matches!(publisher_exited(&long, "p"), Error::Project(m) if m.starts_with("the artifact publish command exited on a signal: ")));
    let spawn = ProcessError::Spawn { program: "sh".to_string(), detail: "gone".to_string() };
    assert_eq!(
        publisher_failed_to_run(&spawn, "/art/a.png"),
        Error::Project(
            "the artifact publish command could not run: could not run sh: gone; the file is kept at /art/a.png"
                .to_string()
        )
    );
}

#[test]
fn a_publish_verdict_keeps_the_copy_either_way() {
    assert_eq!(
        publish_verdict("/art/a.png".to_string(), "https://cdn.test/a.png"),
        Ok(Staged { path: "/art/a.png".to_string(), url: "https://cdn.test/a.png".to_string() })
    );
    assert_eq!(
        publish_verdict("/art/a.png".to_string(), "done"),
        Err(Error::Project(
            "the publish command printed no http(s) URL; the file is kept at /art/a.png".to_string()
        ))
    );
}

#[test]
fn a_second_file_of_a_name_lands_beside_the_first() {
    assert_eq!(staging_candidate("/home/artifacts", "clip.mp4", 1), "/home/artifacts/clip-1.mp4");
}
