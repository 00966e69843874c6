use mocasa::data::gwas::{
    get_delim, missing_value_error, GwasCols, GwasReader, MISSING_DELIM_MSG, MSG_EMPTY_FILE,
};
use mocasa::data::{check_complete, GwasData, Meta, MSG_DATA_SHAPES_DIFFER};
use mocasa::error::ErrorKind;
use mocasa::matrix::Matrix;
use std::sync::Arc;

fn strings(items: &[&str]) -> Arc<Vec<String>> {
    Arc::new(items.iter().map(|item| item.to_string()).collect())
}

fn meta() -> Meta {
    Meta::new(strings(&["bmi", "t2d", "ldl"]), strings(&["rs1", "rs2"]))
}

#[test]
fn meta_counts_and_shares() {
    let meta = meta();
    assert_eq!(meta.n_data_points(), 2);
    assert_eq!(meta.n_traits(), 3);
    assert_eq!(meta.var_ids(), &vec!["rs1".to_string(), "rs2".to_string()]);
    assert_eq!(meta.trait_names()[2], "ldl");
    let shared = meta.share();
    assert!(Arc::ptr_eq(&shared.var_ids, &meta.var_ids));
    assert!(Arc::ptr_eq(&shared.trait_names, &meta.trait_names));
    assert_eq!(shared.trait_names(), meta.trait_names());
}

#[test]
fn data_checks_its_shape() {
    let betas = Matrix::filled(2, 3, 0.0);
    let ses = Matrix::filled(2, 3, 1.0);
    let data = GwasData::new(meta(), betas, ses).unwrap();
    assert_eq!(data.n_data_points(), 2);
    assert_eq!(data.n_traits(), 3);
    let error =
        GwasData::new(meta(), Matrix::filled(2, 3, 0.0), Matrix::filled(3, 2, 1.0)).unwrap_err();
    assert_eq!(error.kind, ErrorKind::Mocasa);
    assert_eq!(error.message, MSG_DATA_SHAPES_DIFFER);
    assert!(GwasData::new(meta(), Matrix::filled(2, 2, 0.0), Matrix::filled(2, 3, 1.0)).is_err());
}

#[test]
fn only_data_point_keeps_the_observed_traits() {
    let betas = Matrix::from_vec(2, 3, vec![0.1, f64::NAN, 0.3, 1.1, 1.2, 1.3]).unwrap();
    let ses = Matrix::from_vec(2, 3, vec![0.01, 0.02, 0.03, 0.11, 0.12, f64::NAN]).unwrap();
    let data = GwasData::new(meta(), betas, ses).unwrap();
    let observed: Vec<bool> = (0..3)
        .map(|i_col| data.betas.get(0, i_col).is_finite() && data.ses.get(0, i_col).is_finite())
        .collect();
    let (only, is_col) = data.only_data_point(0, &observed);
    assert_eq!(is_col, vec![0, 2]);
    assert_eq!(only.meta.var_ids(), &vec!["rs1".to_string()]);
    assert_eq!(only.meta.trait_names(), &vec!["bmi".to_string(), "ldl".to_string()]);
    assert_eq!(only.n_data_points(), 1);
    assert_eq!(only.n_traits(), 2);
    assert_eq!(only.betas.row(0), &[0.1, 0.3]);
    assert_eq!(only.ses.row(0), &[0.01, 0.03]);
    let (only, is_col) = data.only_data_point(1, &vec![true, true, false]);
    assert_eq!(is_col, vec![0, 1]);
    assert_eq!(only.meta.var_ids(), &vec!["rs2".to_string()]);
    assert_eq!(only.betas.row(0), &[1.1, 1.2]);
    assert_eq!(only.ses.row(0), &[0.11, 0.12]);
    let (none, is_col) = data.only_data_point(1, &vec![false, false, false]);
    assert!(is_col.is_empty());
    assert_eq!(none.n_traits(), 0);
    assert_eq!(none.betas.n_rows(), 1);
}

#[test]
fn complete_data_pass() {
    let none_missing = Matrix::filled(2, 3, false);
    assert!(check_complete(&meta(), &none_missing, &none_missing).is_ok());
}

#[test]
fn first_missing_value_is_named() {
    let none_missing = Matrix::filled(2, 3, false);
    let mut beta_missing = Matrix::filled(2, 3, false);
    beta_missing.set(1, 0, true);
    beta_missing.set(0, 2, true);
    let error = check_complete(&meta(), &beta_missing, &none_missing).unwrap_err();
    assert_eq!(error.kind, ErrorKind::Mocasa);
    assert_eq!(error.message, "Missing beta for trait ldl for var id rs1");
    let mut se_missing = Matrix::filled(2, 3, false);
    se_missing.set(0, 1, true);
    let error = check_complete(&meta(), &beta_missing, &se_missing).unwrap_err();
    assert_eq!(error.message, "Missing se for trait t2d for var id rs1");
    se_missing.set(0, 2, true);
    se_missing.set(0, 1, false);
    let error = check_complete(&meta(), &beta_missing, &se_missing).unwrap_err();
    assert_eq!(error.message, "Missing beta for trait ldl for var id rs1");
    let error = check_complete(&meta(), &none_missing, &se_missing).unwrap_err();
    assert_eq!(error.message, "Missing se for trait ldl for var id rs1");
}

#[test]
fn delimiter_is_the_first_of_the_four_that_occurs() {
    assert_eq!(get_delim("VAR_ID;BETA,SE").unwrap(), ';');
    assert_eq!(get_delim("VAR_ID\tBETA,SE").unwrap(), '\t');
    assert_eq!(get_delim("VAR_ID,BETA SE").unwrap(), ',');
    assert_eq!(get_delim("VAR_ID BETA SE").unwrap(), ' ');
    let error = get_delim("VAR_ID|BETA|SE").unwrap_err();
    assert_eq!(error.kind, ErrorKind::Mocasa);
    assert_eq!(error.message, MISSING_DELIM_MSG);
    assert!(get_delim("").is_err());
}

#[test]
fn standard_columns_have_the_standard_heads() {
    let cols = GwasCols::default();
    assert_eq!(cols.id, "VAR_ID");
    assert_eq!(cols.effect, "BETA");
    assert_eq!(cols.se, "SE");
}

#[test]
fn header_tells_where_the_columns_are() {
    let reader = GwasReader::new(Some("CHR\tSE\tVAR_ID\tP\tBETA"), GwasCols::default()).unwrap();
    assert_eq!(reader.delim, '\t');
    assert_eq!(reader.i_var_id, 2);
    assert_eq!(reader.i_beta, 4);
    assert_eq!(reader.i_se, 1);
    let fields = reader.fields("1\t0.02\trs123\t0.5\t-0.11");
    assert_eq!(fields.var_id.as_deref(), Some("rs123"));
    assert_eq!(fields.beta.as_deref(), Some("-0.11"));
    assert_eq!(fields.se.as_deref(), Some("0.02"));
    let short = reader.fields("1\t0.02\trs123");
    assert_eq!(short.var_id.as_deref(), Some("rs123"));
    assert_eq!(short.beta, None);
    assert_eq!(short.se.as_deref(), Some("0.02"));
    let empty = reader.fields("");
    assert_eq!(empty.var_id, None);
    assert_eq!(empty.se, None);
}

#[test]
fn header_with_a_repeated_head_takes_the_last() {
    let cols = GwasCols { id: "id".to_string(), effect: "b".to_string(), se: "s".to_string() };
    let reader = GwasReader::new(Some("id,b,s,b,id"), cols).unwrap();
    assert_eq!(reader.delim, ',');
    assert_eq!(reader.i_var_id, 4);
    assert_eq!(reader.i_beta, 3);
    assert_eq!(reader.i_se, 2);
}

#[test]
fn header_errors_name_what_is_missing() {
    let error = GwasReader::new(None, GwasCols::default()).unwrap_err();
    assert_eq!(error.kind, ErrorKind::Mocasa);
    assert_eq!(error.message, MSG_EMPTY_FILE);
    let error = GwasReader::new(Some("VAR_ID"), GwasCols::default()).unwrap_err();
    assert_eq!(error.message, MISSING_DELIM_MSG);
    let error = GwasReader::new(Some("A;BETA;SE"), GwasCols::default()).unwrap_err();
    assert_eq!(error.message, "No VAR_ID column");
    let error = GwasReader::new(Some("VAR_ID;B;S"), GwasCols::default()).unwrap_err();
    assert_eq!(error.message, "No BETA column");
    let error = GwasReader::new(Some("VAR_ID;BETA;S"), GwasCols::default()).unwrap_err();
    assert_eq!(error.message, "No SE column");
    let same = GwasCols { id: "x".to_string(), effect: "x".to_string(), se: "SE".to_string() };
    let error = GwasReader::new(Some("x;x;SE"), same).unwrap_err();
    assert_eq!(error.message, "No x column");
    let error = missing_value_error("BETA");
    assert_eq!(error.kind, ErrorKind::Mocasa);
    assert_eq!(error.message, "Missing value for 'BETA'.");
}
