use mocasa::error::ErrorKind;
use mocasa::matrix::Matrix;
use mocasa::params::{
    checked_n_params, ParamIndex, Params, ParamsOverride, MSG_SHAPES_DIFFER, MSG_TOO_MANY_PARAMS,
};
use std::sync::Arc;

fn names(names: &[&str]) -> Arc<Vec<String>> {
    Arc::new(names.iter().map(|name| name.to_string()).collect())
}

#[test]
fn number_of_params_counts_every_part() {
    assert_eq!(ParamIndex::n_params(1, 2), 6);
    assert_eq!(ParamIndex::n_params(1, 0), 2);
    assert_eq!(ParamIndex::n_params(0, 3), 3);
    assert_eq!(ParamIndex::n_params(3, 4), 22);
    assert_eq!(checked_n_params(2, 5), Some(19));
    assert_eq!(checked_n_params(usize::MAX, 1), None);
    assert_eq!(checked_n_params(1, usize::MAX), None);
    assert_eq!(checked_n_params(0, usize::MAX), Some(usize::MAX));
}

#[test]
fn all_params_come_in_the_order_of_their_ordinals() {
    let all = ParamIndex::all(2, 3);
    assert_eq!(
        all,
        vec![
            ParamIndex::Mu(0),
            ParamIndex::Mu(1),
            ParamIndex::Tau(0),
            ParamIndex::Tau(1),
            ParamIndex::Beta(0, 0),
            ParamIndex::Beta(0, 1),
            ParamIndex::Beta(0, 2),
            ParamIndex::Beta(1, 0),
            ParamIndex::Beta(1, 1),
            ParamIndex::Beta(1, 2),
            ParamIndex::Sigma(0),
            ParamIndex::Sigma(1),
            ParamIndex::Sigma(2),
        ]
    );
    for (ordinal, index) in all.iter().enumerate() {
        assert_eq!(index.get_ordinal(2, 3), ordinal);
    }
    assert_eq!(ParamIndex::all(1, 2).len(), 6);
    assert!(ParamIndex::all(0, 0).is_empty());
}

#[test]
fn params_are_named_with_their_traits() {
    let trait_names = vec!["bmi".to_string(), "t2d".to_string()];
    assert_eq!(ParamIndex::Mu(0).with_trait_name(&trait_names), "mu_0");
    assert_eq!(ParamIndex::Tau(12).with_trait_name(&trait_names), "tau_12");
    assert_eq!(ParamIndex::Beta(3, 1).with_trait_name(&trait_names), "beta_3_t2d");
    assert_eq!(ParamIndex::Sigma(0).with_trait_name(&trait_names), "sigma_bmi");
    assert_eq!(ParamIndex::Mu(0).to_text(), "mu_0");
    assert_eq!(ParamIndex::Tau(1).to_text(), "tau_1");
    assert_eq!(ParamIndex::Beta(10, 205).to_text(), "beta_10_205");
    assert_eq!(ParamIndex::Sigma(7).to_text(), "sigma_7");
}

#[test]
fn from_vec_reads_a_single_endophenotype() {
    let values = vec![0.0, 1.0, 2.0, 3.0, 0.5, 0.25];
    let params = Params::from_vec(&values, names(&["a", "b"]), 1).unwrap();
    assert_eq!(params.n_endos(), 1);
    assert_eq!(params.n_traits(), 2);
    assert_eq!(params.mus(), &vec![0.0]);
    assert_eq!(params.taus(), &vec![1.0]);
    assert_eq!(params.betas().row(0), &[2.0, 3.0]);
    assert_eq!(params.sigmas(), &vec![0.5, 0.25]);
    assert_eq!(**params.trait_names(), vec!["a".to_string(), "b".to_string()]);
    assert_eq!(params.to_vec(), values);
}

#[test]
fn from_vec_reads_several_endophenotypes() {
    let values: Vec<f64> = (0..13).map(|i| i as f64 * 0.5).collect();
    let params = Params::from_vec(&values, names(&["a", "b", "c"]), 2).unwrap();
    assert_eq!(params.mus(), &vec![0.0, 0.5]);
    assert_eq!(params.taus(), &vec![1.0, 1.5]);
    assert_eq!(params.betas().row(0), &[2.0, 2.5, 3.0]);
    assert_eq!(params.betas().row(1), &[3.5, 4.0, 4.5]);
    assert_eq!(params.sigmas(), &vec![5.0, 5.5, 6.0]);
    for index in ParamIndex::all(2, 3) {
        assert_eq!(*params.get(index), values[index.get_ordinal(2, 3)]);
    }
    let back = Params::from_vec(&params.to_vec(), names(&["a", "b", "c"]), 2).unwrap();
    assert_eq!(back.to_vec(), values);
    assert_eq!(back.mus(), params.mus());
    assert_eq!(back.taus(), params.taus());
    assert_eq!(back.betas().elements(), params.betas().elements());
    assert_eq!(back.sigmas(), params.sigmas());
}

#[test]
fn from_vec_refuses_a_wrong_number_of_values() {
    let error = Params::from_vec(&vec![1.0; 5], names(&["a", "b"]), 1).unwrap_err();
    assert_eq!(error.kind, ErrorKind::Mocasa);
    assert_eq!(error.message, "Need 6 values for 2 traits, but got 5.");
    let error = Params::from_vec(&vec![1.0; 6], names(&["a", "b"]), 2).unwrap_err();
    assert_eq!(error.message, "Need 10 values for 2 traits, but got 6.");
    let error = Params::from_vec(&vec![1.0; 6], names(&["a", "b"]), usize::MAX).unwrap_err();
    assert_eq!(error.message, MSG_TOO_MANY_PARAMS);
}

#[test]
fn new_checks_the_shapes() {
    let betas = Matrix::from_vec(1, 2, vec![2.0, 3.0]).unwrap();
    let params =
        Params::new(names(&["a", "b"]), vec![0.0], vec![1.0], betas, vec![0.5, 0.5]).unwrap();
    assert_eq!(params.to_vec(), vec![0.0, 1.0, 2.0, 3.0, 0.5, 0.5]);
    let betas = Matrix::from_vec(1, 2, vec![2.0, 3.0]).unwrap();
    let error =
        Params::new(names(&["a", "b"]), vec![0.0], vec![1.0, 1.0], betas, vec![0.5, 0.5])
            .unwrap_err();
    assert_eq!(error.kind, ErrorKind::Mocasa);
    assert_eq!(error.message, MSG_SHAPES_DIFFER);
    let betas = Matrix::from_vec(2, 1, vec![2.0, 3.0]).unwrap();
    assert!(Params::new(names(&["a", "b"]), vec![0.0], vec![1.0], betas, vec![0.5, 0.5]).is_err());
    let betas = Matrix::from_vec(1, 2, vec![2.0, 3.0]).unwrap();
    assert!(Params::new(names(&["a", "b"]), vec![0.0], vec![1.0], betas, vec![0.5]).is_err());
    let betas = Matrix::from_vec(0, 5, Vec::<f64>::new()).unwrap();
    assert!(Params::new(names(&["a"]), vec![], vec![], betas, vec![0.5]).is_err());
    let betas = Matrix::from_vec(0, 1, Vec::<f64>::new()).unwrap();
    let none = Params::new(names(&["a"]), vec![], vec![], betas, vec![0.5]).unwrap();
    assert_eq!(none.n_endos(), 0);
    assert_eq!(none.betas().n_cols(), 1);
    assert_eq!(none.to_vec(), vec![0.5]);
}

#[test]
fn reduce_to_keeps_the_traits_asked_for() {
    let values: Vec<f64> = (0..13).map(|i| i as f64).collect();
    let params = Params::from_vec(&values, names(&["a", "b", "c"]), 2).unwrap();
    let reduced = params.reduce_to(names(&["c", "a"]), &vec![2, 0]);
    assert_eq!(reduced.n_traits(), 2);
    assert_eq!(reduced.mus(), &vec![0.0, 1.0]);
    assert_eq!(reduced.taus(), &vec![2.0, 3.0]);
    assert_eq!(reduced.betas().row(0), &[6.0, 4.0]);
    assert_eq!(reduced.betas().row(1), &[9.0, 7.0]);
    assert_eq!(reduced.sigmas(), &vec![12.0, 10.0]);
    assert_eq!(**reduced.trait_names(), vec!["c".to_string(), "a".to_string()]);
}

#[test]
fn overwrite_replaces_what_is_given() {
    let values: Vec<f64> = (0..13).map(|i| i as f64).collect();
    let params = Params::from_vec(&values, names(&["a", "b", "c"]), 2).unwrap();
    let changed = params.plus_overwrite(&ParamsOverride { mu: Some(-1.0), tau: None });
    assert_eq!(changed.mus(), &vec![-1.0, -1.0]);
    assert_eq!(changed.taus(), &vec![2.0, 3.0]);
    assert_eq!(changed.sigmas(), &vec![10.0, 11.0, 12.0]);
    let changed = changed.plus_overwrite(&ParamsOverride { mu: None, tau: Some(0.5) });
    assert_eq!(changed.mus(), &vec![-1.0, -1.0]);
    assert_eq!(changed.taus(), &vec![0.5, 0.5]);
    assert_eq!(changed.betas().row(1), &[7.0, 8.0, 9.0]);
}
