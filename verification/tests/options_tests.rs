use mocasa::classify::{chunk_range, header, is_traced, out_file_name, temp_file_name};
use mocasa::error::ErrorKind;
use mocasa::options::{
    chunking, core_options, import_phenet_options, known_subcommands_message, log_level,
    missing_option_error, subcommand, Action, Arg, ArgDef, Chunking, LogLevel, Subcommand,
    MSG_CHUNKS_HALF_GIVEN, MSG_I_CHUNK_TOO_LARGE, MSG_I_CHUNK_ZERO, MSG_UNKNOWN_LOG_LEVEL,
};

#[test]
fn chunking_needs_both_numbers_and_a_part_that_exists() {
    assert_eq!(chunking(None, None).unwrap(), None);
    assert_eq!(chunking(Some(4), Some(1)).unwrap(), Some(Chunking { n_chunks: 4, i_chunk: 1 }));
    assert_eq!(chunking(Some(4), Some(4)).unwrap(), Some(Chunking { n_chunks: 4, i_chunk: 4 }));
    let error = chunking(Some(4), Some(5)).unwrap_err();
    assert_eq!(error.kind, ErrorKind::Mocasa);
    assert_eq!(error.message, MSG_I_CHUNK_TOO_LARGE);
    assert_eq!(chunking(Some(4), Some(0)).unwrap_err().message, MSG_I_CHUNK_ZERO);
    assert_eq!(chunking(Some(0), Some(0)).unwrap_err().message, MSG_I_CHUNK_ZERO);
    assert_eq!(chunking(Some(4), None).unwrap_err().message, MSG_CHUNKS_HALF_GIVEN);
    assert_eq!(chunking(None, Some(1)).unwrap_err().message, MSG_CHUNKS_HALF_GIVEN);
}

#[test]
fn log_level_is_read_in_any_case() {
    assert_eq!(log_level(None).unwrap(), LogLevel::Warn);
    assert_eq!(log_level(Some("error")).unwrap(), LogLevel::Error);
    assert_eq!(log_level(Some("WARN")).unwrap(), LogLevel::Warn);
    assert_eq!(log_level(Some("Info")).unwrap(), LogLevel::Info);
    assert_eq!(log_level(Some("dEbUg")).unwrap(), LogLevel::Debug);
    assert_eq!(log_level(Some("trace")).unwrap(), LogLevel::Trace);
    for unknown in ["off", "OFF", "", "warning", "inf", " info", "tracé"] {
        let error = log_level(Some(unknown)).unwrap_err();
        assert_eq!(error.kind, ErrorKind::Mocasa);
        assert_eq!(error.message, MSG_UNKNOWN_LOG_LEVEL);
    }
}

#[test]
fn missing_option_is_named_both_ways() {
    let error = missing_option_error("config file", Arg::ConfigFile.def());
    assert_eq!(error.kind, ErrorKind::Mocasa);
    assert_eq!(error.message, "Missing config file option ('--conf-file' or '-f').");
    let error = missing_option_error("scale", ArgDef::new("scale", 's'));
    assert_eq!(error.message, "Missing scale option ('--scale' or '-s').");
    assert_eq!(Arg::NChunks.def().name, "n-chunks");
    assert_eq!(Arg::NChunks.def().short, 'x');
    assert_eq!(Arg::IChunk.def().short, 'k');
    assert_eq!(Arg::PhenetFile.def().name, "phenet-file");
    assert_eq!(Arg::Endos.def().short, 'e');
}

#[test]
fn core_options_are_put_together() {
    let options = core_options(
        Action::Classify,
        Some("conf.toml".to_string()),
        true,
        Some("debug"),
        Some(3),
        Some(2),
    )
    .unwrap();
    assert_eq!(options.action, Action::Classify);
    assert_eq!(options.config_file, "conf.toml");
    assert!(options.flags.dry);
    assert_eq!(options.flags.log_level, LogLevel::Debug);
    assert_eq!(options.flags.chunking, Some(Chunking { n_chunks: 3, i_chunk: 2 }));
    let options =
        core_options(Action::Train, Some("c".to_string()), false, None, None, None).unwrap();
    assert_eq!(options.action, Action::Train);
    assert!(!options.flags.dry);
    assert_eq!(options.flags.log_level, LogLevel::Warn);
    assert_eq!(options.flags.chunking, None);
}

#[test]
fn core_options_fail_on_the_first_fault() {
    let error = core_options(Action::Train, None, false, Some("nope"), Some(1), None).unwrap_err();
    assert_eq!(error.message, "Missing config file option ('--conf-file' or '-f').");
    let error = core_options(Action::Train, Some("c".to_string()), false, Some("nope"), Some(1), None)
        .unwrap_err();
    assert_eq!(error.message, MSG_UNKNOWN_LOG_LEVEL);
    let error = core_options(Action::Train, Some("c".to_string()), false, Some("info"), Some(1), None)
        .unwrap_err();
    assert_eq!(error.message, MSG_CHUNKS_HALF_GIVEN);
}

#[test]
fn import_options_need_all_four_files() {
    let file = |name: &str| Some(name.to_string());
    let options = import_phenet_options(file("p"), file("q"), file("c"), file("o")).unwrap();
    assert_eq!(options.phenet_file, "p");
    assert_eq!(options.params_file, "q");
    assert_eq!(options.config_file, "c");
    assert_eq!(options.out_file, "o");
    let error = import_phenet_options(None, None, file("c"), file("o")).unwrap_err();
    assert_eq!(error.message, "Missing phenet opts file option ('--phenet-file' or '-i').");
    let error = import_phenet_options(file("p"), None, None, file("o")).unwrap_err();
    assert_eq!(error.message, "Missing Mocasa parameters file option ('--params-file' or '-p').");
    let error = import_phenet_options(file("p"), file("q"), None, None).unwrap_err();
    assert_eq!(error.message, "Missing Mocasa config file option ('--conf-file' or '-f').");
    let error = import_phenet_options(file("p"), file("q"), file("c"), None).unwrap_err();
    assert_eq!(
        error.message,
        "Missing Mocasa classification output file option ('--out-file' or '-o')."
    );
}

#[test]
fn subcommands_are_told_by_name() {
    assert_eq!(subcommand(Some("train")).unwrap(), Subcommand::Core(Action::Train));
    assert_eq!(subcommand(Some("classify")).unwrap(), Subcommand::Core(Action::Classify));
    assert_eq!(subcommand(Some("import-phenet")).unwrap(), Subcommand::ImportPhenet);
    assert_eq!(subcommand(Some("scale-sigmas")).unwrap(), Subcommand::ScaleSigmas);
    assert_eq!(subcommand(Some("import-params")).unwrap(), Subcommand::ImportParams);
    assert_eq!(Action::Train.as_str(), "train");
    assert_eq!(Action::Classify.as_str(), "classify");
    assert_eq!(
        known_subcommands_message(),
        "Known subcommands are train, classify and import-phenet."
    );
    let error = subcommand(Some("Train")).unwrap_err();
    assert_eq!(error.kind, ErrorKind::Mocasa);
    assert_eq!(
        error.message,
        "Unknown subcommand Train. Known subcommands are train, classify and import-phenet."
    );
    let error = subcommand(None).unwrap_err();
    assert_eq!(
        error.message,
        "Need to specify subcommand. Known subcommands are train, classify and import-phenet."
    );
}

#[test]
fn chunks_cover_the_data_without_gap_or_overlap() {
    assert_eq!(chunk_range(10, &None), (0, 10));
    assert_eq!(chunk_range(10, &Some(Chunking { n_chunks: 3, i_chunk: 1 })), (0, 3));
    assert_eq!(chunk_range(10, &Some(Chunking { n_chunks: 3, i_chunk: 2 })), (3, 6));
    assert_eq!(chunk_range(10, &Some(Chunking { n_chunks: 3, i_chunk: 3 })), (6, 10));
    assert_eq!(chunk_range(2, &Some(Chunking { n_chunks: 4, i_chunk: 1 })), (0, 0));
    assert_eq!(chunk_range(2, &Some(Chunking { n_chunks: 4, i_chunk: 2 })), (0, 1));
    assert_eq!(chunk_range(0, &Some(Chunking { n_chunks: 1, i_chunk: 1 })), (0, 0));
    let huge = Some(Chunking { n_chunks: usize::MAX, i_chunk: usize::MAX });
    assert_eq!(chunk_range(usize::MAX, &huge), (usize::MAX - 1, usize::MAX));
    for n in [0usize, 1, 7, 100, 1001] {
        for n_chunks in 1usize..9 {
            let mut covered = 0usize;
            for i_chunk in 1..=n_chunks {
                let (start, end) = chunk_range(n, &Some(Chunking { n_chunks, i_chunk }));
                assert_eq!(start, covered);
                assert!(start <= end);
                covered = end;
            }
            assert_eq!(covered, n);
        }
    }
}

#[test]
fn result_files_are_named_after_their_part() {
    assert_eq!(out_file_name("out.tsv", &None), "out.tsv");
    assert_eq!(out_file_name("out.tsv", &Some(Chunking { n_chunks: 20, i_chunk: 13 })), "out.tsv_13");
    assert_eq!(temp_file_name("out.tsv_13"), "out.tsv_13_tmp");
}

#[test]
fn header_has_the_closed_form_column_for_one_endophenotype() {
    let traits = vec!["bmi".to_string(), "t2d".to_string()];
    assert_eq!(header(1, &traits), "id\te_0_mean\te_0_std\te_0_z\te_mean_calc\tbmi\tt2d");
    assert_eq!(
        header(2, &traits),
        "id\te_0_mean\te_0_std\te_0_z\te_1_mean\te_1_std\te_1_z\tbmi\tt2d"
    );
    assert_eq!(header(0, &traits), "id\t\tbmi\tt2d");
    assert_eq!(header(1, &vec![]), "id\te_0_mean\te_0_std\te_0_z\te_mean_calc\t");
}

#[test]
fn variant_is_traced_when_listed() {
    let ids = Some(vec!["rs1".to_string(), "rs7".to_string()]);
    let rs7 = "rs7".to_string();
    let rs8 = "rs8".to_string();
    assert!(is_traced(&ids, Some(&rs7)));
    assert!(!is_traced(&ids, Some(&rs8)));
    assert!(!is_traced(&ids, None));
    assert!(!is_traced(&None, Some(&rs7)));
    assert!(!is_traced(&Some(vec![]), Some(&rs7)));
}
