use chrono::{TimeZone, Utc};

use fimfic_tracker::command::{
    command_vars, download_file_name, download_url_format, env_with_command_context,
    sanitize_filename, split_str_to_args,
};
use fimfic_tracker::errors::{command_outcome, ErrorKind};
use fimfic_tracker::{Config, ConfigBuilder, DownloadFormat, Story, StoryStatus};

fn argument_story() -> Story {
    Story {
        id: 0,
        title: "A \"Story\" Title".into(),
        author: "An \"Author\"".into(),
        chapter_count: 10,
        words: 77_446,
        update_datetime: Utc
            .with_ymd_and_hms(2018, 3, 18, 13, 42, 7)
            .single()
            .expect("DateTime should be valid and with a single result")
            .timestamp(),
        status: StoryStatus::Hiatus,
    }
}

#[test]
fn argument_split() {
    let story = argument_story();
    let config: Config = ConfigBuilder::new()
        .download_dir("/path/to/download-dir")
        .tracker_file("/path/to/tracker-file.json")
        .into();

    assert_eq!(
        split_str_to_args("wget -O $DOWNLOAD_DIR/$TITLE.$FORMAT $DOWNLOAD_URL", &story, &config)
            .expect("command should be properly defined"),
        vec![
            "wget",
            "-O",
            "/path/to/download-dir/A _Story_ Title.html",
            "https://www.fimfiction.net/story/download/0/html",
        ]
    );

    assert_eq!(
        split_str_to_args("fimfic2epub --dir $DOWNLOAD_DIR $ID", &story, &config)
            .expect("command should be properly defined"),
        vec!["fimfic2epub", "--dir", "/path/to/download-dir", "0"]
    );

    assert_eq!(
        split_str_to_args(
            "fanficfare --format=$FORMAT --non-interactive \
            --option output_filename=\"$DOWNLOAD_DIR/$${title}-$${siteabbrev}_$${storyId}$${formatext}\" \
            $URL",
            &story,
            &config
        )
        .expect("command should be properly defined"),
        vec![
            "fanficfare",
            "--format=html",
            "--non-interactive",
            "--option",
            "output_filename=/path/to/download-dir/${title}-${siteabbrev}_${storyId}${formatext}",
            "https://www.fimfiction.net/story/0",
        ]
    );
}

#[test]
fn malformed_quoting_fails() {
    let story = argument_story();
    let config = Config::default();
    let err = split_str_to_args("echo \"unterminated", &story, &config).unwrap_err();
    assert!(matches!(err.kind, ErrorKind::Custom(_)));
}

#[test]
fn expansion_leaves_unknown_variables() {
    let story = argument_story();
    let config: Config = ConfigBuilder::new()
        .download_dir("/d")
        .download_format(DownloadFormat::EPUB)
        .into();
    assert_eq!(
        env_with_command_context("$ID $CHAPTERS $WORDS $UPDATE_TIMESTAMP $FORMAT $AUTHOR $NOPE", &story, &config),
        "0 10 77446 1521380527 epub An _Author_ $NOPE"
    );
    let vars = command_vars(&story, &config);
    assert_eq!(vars.len(), 10);
    assert_eq!(vars[7].1, "https://www.fimfiction.net/story/download/0/epub");
}

#[test]
fn download_url_builder() {
    let story = Story {
        id: 165,
        title: "A Title".into(),
        author: "An Author".into(),
        chapter_count: 5,
        words: 15017,
        update_datetime: Utc::now().timestamp(),
        status: StoryStatus::Complete,
    };

    for (format, name) in [
        (DownloadFormat::HTML, "html"),
        (DownloadFormat::EPUB, "epub"),
        (DownloadFormat::TXT, "txt"),
    ] {
        assert_eq!(
            format!("https://www.fimfiction.net/story/download/{}/{}", story.id, name),
            download_url_format(&story, format).as_str()
        );
    }
}

#[test]
fn sanitizing_file_names() {
    assert_eq!(sanitize_filename("a<b>c:d\"e?f*g/h\\i"), "a_b_c_d_e_f_g_h_i");
    assert_eq!(sanitize_filename("plain name"), "plain name");
    assert_eq!(sanitize_filename(""), "");
    assert_eq!(download_file_name(&argument_story(), DownloadFormat::TXT), "A _Story_ Title.txt");
}

#[test]
fn command_exit_status() {
    assert!(command_outcome(true, Some(0)).is_ok());
    match command_outcome(false, Some(2)).unwrap_err().kind {
        ErrorKind::Execution { code } => assert_eq!(code, Some(2)),
        _ => unreachable!(),
    }
    match command_outcome(false, None).unwrap_err().kind {
        ErrorKind::Execution { code } => assert_eq!(code, None),
        _ => unreachable!(),
    }
}

#[test]
fn empty_command_fails() {
    let story = argument_story();
    let config = Config::default();
    let err = split_str_to_args("   ", &story, &config).unwrap_err();
    assert!(matches!(err.kind, ErrorKind::Custom(_)));
}
