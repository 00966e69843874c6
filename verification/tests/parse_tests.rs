use mocasa::check::{check_config, check_params, MSG_NO_GWAS};
use mocasa::error::ErrorKind;
use mocasa::import::{
    assert_no_more_lines, check_same_length, check_same_strings, content, next_line_prefix,
    next_line_prefix_strings, MSG_END_OF_FILE,
};
use mocasa::phenet::{
    parse_opts_line, parse_phenet_line, OptsKey, PhenetKey, PhenetOptsBuilder,
};

fn strings(items: &[&str]) -> Vec<String> {
    items.iter().map(|item| item.to_string()).collect()
}

#[test]
fn configuration_needs_a_gwas() {
    assert!(check_config(1).is_ok());
    assert!(check_config(12).is_ok());
    let error = check_config(0).unwrap_err();
    assert_eq!(error.kind, ErrorKind::Mocasa);
    assert_eq!(error.message, MSG_NO_GWAS);
}

#[test]
fn traits_of_configuration_and_params_have_to_agree() {
    assert!(check_params(&strings(&["a", "b"]), &strings(&["a", "b"])).is_ok());
    assert!(check_params(&strings(&[]), &strings(&[])).is_ok());
    let error = check_params(&strings(&["a", "b", "c"]), &strings(&["a", "b"])).unwrap_err();
    assert_eq!(error.kind, ErrorKind::Mocasa);
    assert_eq!(
        error.message,
        "Number GWAS files (3) does not match number of traits in params (2)"
    );
    let error = check_params(&strings(&["a", "x", "y"]), &strings(&["a", "b", "c"])).unwrap_err();
    assert_eq!(
        error.message,
        "Trait name in GWAS file 1 (x) does not match trait name in params (b)"
    );
}

#[test]
fn lines_without_content_are_passed_over() {
    assert_eq!(content("  mus\t1\t2  "), Some("mus\t1\t2".to_string()));
    assert_eq!(content(""), None);
    assert_eq!(content("   \t"), None);
    assert_eq!(content("# a comment"), None);
    assert_eq!(content("   #indented comment"), None);
    assert_eq!(content("a # not a comment"), Some("a # not a comment".to_string()));
}

#[test]
fn line_with_the_expected_prefix_gives_its_values() {
    assert_eq!(next_line_prefix("mus", Some("mus\t1.5\t-2")).unwrap(), strings(&["1.5", "-2"]));
    assert_eq!(next_line_prefix("endos", Some("endos")).unwrap(), strings(&[]));
    assert_eq!(next_line_prefix("", Some("\ta")).unwrap(), strings(&["a"]));
    assert_eq!(
        next_line_prefix_strings("traits", Some("traits\tbmi\t\tt2d")).unwrap(),
        strings(&["bmi", "", "t2d"])
    );
}

#[test]
fn line_with_another_prefix_is_refused() {
    let error = next_line_prefix("mus", Some("taus\t1.5")).unwrap_err();
    assert_eq!(error.kind, ErrorKind::Mocasa);
    assert_eq!(error.message, "Expected line starting with 'mus', got 'taus'");
    let error = next_line_prefix("mus", Some("mus 1.5")).unwrap_err();
    assert_eq!(error.message, "Expected line starting with 'mus', got 'mus 1.5'");
    let error = next_line_prefix("mus", None).unwrap_err();
    assert_eq!(error.kind, ErrorKind::Mocasa);
    assert_eq!(error.message, MSG_END_OF_FILE);
    assert_eq!(next_line_prefix_strings("mus", None).unwrap_err().message, MSG_END_OF_FILE);
}

#[test]
fn file_may_have_no_line_left() {
    assert!(assert_no_more_lines(None, "betas.txt").is_ok());
    let error = assert_no_more_lines(Some("extra\t1"), "betas.txt").unwrap_err();
    assert_eq!(error.kind, ErrorKind::Mocasa);
    assert_eq!(error.message, "Unexpected line in betas.txt: 'extra\t1'");
}

#[test]
fn lists_have_to_have_the_same_length() {
    assert!(check_same_length("endos", &strings(&["a"]), "mus", &vec![1.0]).is_ok());
    let error = check_same_length("endos", &strings(&["a", "b"]), "mus", &vec![1.0]).unwrap_err();
    assert_eq!(error.kind, ErrorKind::Mocasa);
    assert_eq!(error.message, "endos has 2 values, but mus has 1 values.");
}

#[test]
fn lists_have_to_hold_the_same_strings() {
    assert!(check_same_strings("x", &strings(&["a", "b"]), "y", &strings(&["a", "b"])).is_ok());
    let error =
        check_same_strings("x", &strings(&["a", "b"]), "y", &strings(&["a"])).unwrap_err();
    assert_eq!(error.message, "x has 2 values, but y has 1 values.");
    let error = check_same_strings(
        "traits from config",
        &strings(&["a", "b", "c"]),
        "traits from betas",
        &strings(&["a", "z", "y"]),
    )
    .unwrap_err();
    assert_eq!(error.kind, ErrorKind::Mocasa);
    assert_eq!(
        error.message,
        "In position 1, traits from config has value 'b', but traits from betas has value 'z'."
    );
}

#[test]
fn phenet_lines_are_told_apart() {
    let entry = parse_phenet_line("  bmi declare trait ").unwrap().unwrap();
    assert_eq!(entry.key, PhenetKey::DeclareTrait);
    assert_eq!(entry.name, "bmi");
    assert_eq!(entry.value, "trait");
    let entry = parse_phenet_line("E1 declare endo").unwrap().unwrap();
    assert_eq!(entry.key, PhenetKey::DeclareEndo);
    assert_eq!(entry.name, "E1");
    let cases = [
        ("bmi file data/bmi.tsv", PhenetKey::File, "data/bmi.tsv"),
        ("bmi id_col SNP", PhenetKey::IdCol, "SNP"),
        ("bmi effect_col B", PhenetKey::EffectCol, "B"),
        ("bmi se_col S", PhenetKey::SeCol, "S"),
        ("bmi beta 0.5", PhenetKey::Beta, "0.5"),
        ("bmi var 1e-2", PhenetKey::Var, "1e-2"),
        ("bmi\tmean\t-3", PhenetKey::Mean, "-3"),
        ("bmi declare something", PhenetKey::Ignored, "something"),
        ("bmi colour blue", PhenetKey::Ignored, "blue"),
    ];
    for (line, key, value) in cases {
        let entry = parse_phenet_line(line).unwrap().unwrap();
        assert_eq!(entry.key, key);
        assert_eq!(entry.name, "bmi");
        assert_eq!(entry.value, value);
    }
    assert!(parse_phenet_line("").unwrap().is_none());
    assert!(parse_phenet_line("  \t ").unwrap().is_none());
}

#[test]
fn phenet_line_needs_three_words() {
    let error = parse_phenet_line(" bmi declare ").unwrap_err();
    assert_eq!(error.kind, ErrorKind::Mocasa);
    assert_eq!(error.message, "Cannot parse line: 'bmi declare'.");
    let error = parse_phenet_line("bmi  declare trait").unwrap_err();
    assert_eq!(error.message, "Cannot parse line: 'bmi  declare trait'.");
    assert!(parse_phenet_line("a b c d").is_err());
    assert!(parse_phenet_line("word").is_err());
}

#[test]
fn options_lines_are_told_apart() {
    let entry = parse_opts_line("var_id_file ids.txt").unwrap().unwrap();
    assert_eq!(entry.key, OptsKey::VarIdFile);
    assert_eq!(entry.name, "var_id_file");
    assert_eq!(entry.value, "ids.txt");
    let entry = parse_opts_line("  config_file\tconf.cfg  ").unwrap().unwrap();
    assert_eq!(entry.key, OptsKey::ConfigFile);
    assert_eq!(entry.value, "conf.cfg");
    assert_eq!(parse_opts_line("output_file out").unwrap().unwrap().key, OptsKey::OutputFile);
    let entry = parse_opts_line("threads 8").unwrap().unwrap();
    assert_eq!(entry.key, OptsKey::Ignored);
    assert_eq!(entry.name, "threads");
    assert_eq!(entry.value, "8");
    assert!(parse_opts_line("# comment here").unwrap().is_none());
    assert!(parse_opts_line("").unwrap().is_none());
    let error = parse_opts_line("config_file").unwrap_err();
    assert_eq!(error.kind, ErrorKind::Mocasa);
    assert_eq!(error.message, "Expected key/value pair, but got 'config_file'.");
    assert!(parse_opts_line("a b c").is_err());
}

#[test]
fn options_are_gathered_line_by_line() {
    let mut builder = PhenetOptsBuilder::new();
    for line in [
        "# options",
        "var_id_file first.txt",
        "config_file a.cfg",
        "",
        "output_file out1",
        "var_id_file second.txt",
        "config_file b.cfg",
        "colour blue",
    ] {
        if let Some(entry) = parse_opts_line(line).unwrap() {
            builder.add(entry);
        }
    }
    let opts = builder.finish().unwrap();
    assert_eq!(opts.var_id_file, "second.txt");
    assert_eq!(opts.config_files, strings(&["a.cfg", "b.cfg"]));
    assert_eq!(opts.output_file.as_deref(), Some("out1"));
    let mut builder = PhenetOptsBuilder::new();
    builder.add(parse_opts_line("config_file a.cfg").unwrap().unwrap());
    let opts = builder.finish().unwrap();
    assert_eq!(opts.var_id_file, "");
    assert_eq!(opts.output_file, None);
    let mut builder = PhenetOptsBuilder::new();
    builder.add(parse_opts_line("var_id_file ids").unwrap().unwrap());
    let error = builder.finish().unwrap_err();
    assert_eq!(error.kind, ErrorKind::Mocasa);
    assert_eq!(error.message, "Missing option config_file");
}
