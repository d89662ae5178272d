use fimfic_tracker::{Config, ConfigBuilder, DownloadFormat, SensibilityLevel};

fn expect(fields: ConfigBuilder) -> Config {
    fields.into()
}

#[test]
fn merging_result() {
    let config = ConfigBuilder::new()
        .download_dir("~/Download")
        .download_format(DownloadFormat::EPUB)
        .download_delay(0)
        .quiet(false);

    let other_config = ConfigBuilder::new()
        .download_dir("/path/to/download")
        .tracker_file("/path/to/tracker-cache.json")
        .sensibility_level(SensibilityLevel::Anything)
        .quiet(true);

    let another_config = ConfigBuilder::new()
        .download_format(DownloadFormat::TXT)
        .download_delay(1)
        .sensibility_level(SensibilityLevel::IncludeWords)
        .exec_command("/path/to/script $id")
        .quiet(false);

    let merged: Config = config.clone().merge(other_config.clone()).into();
    assert_eq!(
        merged,
        expect(
            ConfigBuilder::new()
                .download_dir("/path/to/download")
                .tracker_file("/path/to/tracker-cache.json")
                .download_format(DownloadFormat::EPUB)
                .download_delay(0)
                .sensibility_level(SensibilityLevel::Anything)
                .quiet(true)
        )
    );

    let merged: Config = other_config.clone().merge(config.clone()).into();
    assert_eq!(
        merged,
        expect(
            ConfigBuilder::new()
                .download_dir("~/Download")
                .tracker_file("/path/to/tracker-cache.json")
                .download_format(DownloadFormat::EPUB)
                .download_delay(0)
                .sensibility_level(SensibilityLevel::Anything)
                .quiet(false)
        )
    );

    let merged: Config = config
        .clone()
        .merge(other_config.clone())
        .merge(another_config.clone())
        .into();
    assert_eq!(
        merged,
        expect(
            ConfigBuilder::new()
                .download_dir("/path/to/download")
                .tracker_file("/path/to/tracker-cache.json")
                .download_format(DownloadFormat::TXT)
                .download_delay(1)
                .sensibility_level(SensibilityLevel::IncludeWords)
                .exec_command("/path/to/script $id")
                .quiet(false)
        )
    );

    let merged: Config = another_config
        .clone()
        .merge(config.clone())
        .merge(other_config.clone())
        .into();
    assert_eq!(
        merged,
        expect(
            ConfigBuilder::new()
                .download_dir("/path/to/download")
                .tracker_file("/path/to/tracker-cache.json")
                .download_format(DownloadFormat::EPUB)
                .download_delay(0)
                .sensibility_level(SensibilityLevel::Anything)
                .exec_command("/path/to/script $id")
                .quiet(true)
        )
    );

    let merged: Config = other_config
        .clone()
        .merge(another_config.clone())
        .merge(config.clone())
        .into();
    assert_eq!(
        merged,
        expect(
            ConfigBuilder::new()
                .download_dir("~/Download")
                .tracker_file("/path/to/tracker-cache.json")
                .download_format(DownloadFormat::EPUB)
                .download_delay(0)
                .sensibility_level(SensibilityLevel::IncludeWords)
                .exec_command("/path/to/script $id")
                .quiet(false)
        )
    );

    let merged: Config = another_config
        .clone()
        .merge(other_config.clone())
        .merge(config.clone())
        .into();
    assert_eq!(
        merged,
        expect(
            ConfigBuilder::new()
                .download_dir("~/Download")
                .tracker_file("/path/to/tracker-cache.json")
                .download_format(DownloadFormat::EPUB)
                .download_delay(0)
                .sensibility_level(SensibilityLevel::Anything)
                .exec_command("/path/to/script $id")
                .quiet(false)
        )
    );
}

#[test]
fn test_comparison() {
    assert!(SensibilityLevel::OnlyChapters == SensibilityLevel::OnlyChapters);
    assert!(SensibilityLevel::OnlyChapters < SensibilityLevel::IncludeWords);
    assert!(SensibilityLevel::OnlyChapters < SensibilityLevel::Anything);

    assert!(SensibilityLevel::IncludeWords == SensibilityLevel::IncludeWords);
    assert!(SensibilityLevel::IncludeWords < SensibilityLevel::Anything);

    assert!(SensibilityLevel::Anything == SensibilityLevel::Anything);
}

#[test]
fn levels_decode_from_rank() {
    assert_eq!(SensibilityLevel::from_rank(0), Some(SensibilityLevel::OnlyChapters));
    assert_eq!(SensibilityLevel::from_rank(1), Some(SensibilityLevel::IncludeWords));
    assert_eq!(SensibilityLevel::from_rank(2), Some(SensibilityLevel::Anything));
    assert_eq!(SensibilityLevel::from_rank(3), None);
    assert_eq!(SensibilityLevel::from_rank(-1), None);
    assert!(SensibilityLevel::Anything > SensibilityLevel::IncludeWords);
    assert!(SensibilityLevel::IncludeWords >= SensibilityLevel::IncludeWords);
}

#[test]
fn defaults_and_empty_values() {
    let config: Config = ConfigBuilder::new().into();
    assert_eq!(config.download_format, DownloadFormat::HTML);
    assert_eq!(config.download_delay, 5);
    assert_eq!(config.sensibility_level, SensibilityLevel::OnlyChapters);
    assert_eq!(config.exec_command, None);
    assert!(!config.quiet);
    assert!(!config.use_separator());

    let config: Config = ConfigBuilder::new()
        .download_dir("")
        .exec_command("")
        .into();
    assert_eq!(config, Config::default());

    let config: Config = ConfigBuilder::new()
        .download_dir("/plain/dir")
        .exec_command("cmd $ID")
        .into();
    assert_eq!(config.download_dir, "/plain/dir");
    assert_eq!(config.exec_command.as_deref(), Some("cmd $ID"));
    assert!(config.use_separator());
}
