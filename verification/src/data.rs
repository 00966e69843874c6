use crate::error::Error;
use crate::error::ErrorKind;
use crate::matrix::Matrix;
use crate::params::share;
use crate::select::marked;
use crate::select::marked_places;
use crate::text::views;
use std::sync::Arc;
use vstd::prelude::*;
use vstd::string::StringExecFns;

pub mod gwas;

verus! {

pub const MSG_DATA_SHAPES_DIFFER: &'static str =
    "The effect sizes and the standard errors are not one for each variant and trait.";

/// The names that belong to a set of data: those of the traits and the
/// identifiers of the variants, each list shared by all who hold the data.
#[derive(Clone, Debug)]
pub struct Meta {
    pub trait_names: Arc<Vec<String>>,
    pub var_ids: Arc<Vec<String>>,
}

impl Meta {
    /// The names of the traits, by their characters.
    pub open spec fn names(&self) -> Seq<Seq<char>> {
        views((*self.trait_names)@)
    }

    /// The identifiers of the variants, by their characters.
    pub open spec fn ids(&self) -> Seq<Seq<char>> {
        views((*self.var_ids)@)
    }

    pub fn new(trait_names: Arc<Vec<String>>, var_ids: Arc<Vec<String>>) -> (meta: Meta)
        ensures
            meta.trait_names == trait_names,
            meta.var_ids == var_ids,
    {
        Meta { trait_names, var_ids }
    }

    pub fn var_ids(&self) -> (var_ids: &Vec<String>)
        ensures
            *var_ids == *self.var_ids,
    {
        &*self.var_ids
    }

    pub fn trait_names(&self) -> (trait_names: &Vec<String>)
        ensures
            *trait_names == *self.trait_names,
    {
        &*self.trait_names
    }

    pub fn n_data_points(&self) -> (n: usize)
        ensures
            n == self.ids().len(),
    {
        self.var_ids.len()
    }

    pub fn n_traits(&self) -> (n: usize)
        ensures
            n == self.names().len(),
    {
        self.trait_names.len()
    }

    /// The same names, shared once more.
    pub fn share(&self) -> (meta: Meta)
        ensures
            meta == *self,
    {
        Meta { trait_names: share(&self.trait_names), var_ids: share(&self.var_ids) }
    }

    /// The names for one variant and a choice of the traits: the identifier of
    /// variant `i_row` alone, and the names of the traits `is_col`, in that
    /// order.
    pub fn only_data_point(&self, i_row: usize, is_col: &Vec<usize>) -> (meta: Meta)
        requires
            i_row < self.ids().len(),
            forall|k: int| 0 <= k < is_col@.len() ==> (#[trigger] is_col@[k]) < self.names().len(),
        ensures
            meta.ids() == seq![self.ids()[i_row as int]],
            meta.names() == Seq::new(is_col@.len(), |k: int| self.names()[is_col@[k] as int]),
    {
        let mut var_ids: Vec<String> = Vec::new();
        var_ids.push(self.var_ids[i_row].clone());
        let mut trait_names: Vec<String> = Vec::new();
        let mut k: usize = 0;
        while k < is_col.len()
            invariant
                k <= is_col@.len(),
                forall|k: int|
                    0 <= k < is_col@.len() ==> (#[trigger] is_col@[k]) < self.names().len(),
                trait_names@.len() == k,
                forall|j: int|
                    0 <= j < k ==> (#[trigger] trait_names@[j])@ == self.names()[is_col@[j] as int],
            decreases is_col@.len() - k,
        {
            trait_names.push(self.trait_names[is_col[k]].clone());
            k += 1;
        }
        let meta = Meta { trait_names: Arc::new(trait_names), var_ids: Arc::new(var_ids) };
        proof {
            assert(meta.ids() =~= seq![self.ids()[i_row as int]]);
            assert(meta.names() =~= Seq::new(
                is_col@.len(),
                |k: int| self.names()[is_col@[k] as int],
            ));
        }
        meta
    }
}

/// What was observed: for each variant and each trait an effect size and its
/// standard error.
#[derive(Clone, Debug)]
pub struct GwasData<T> {
    pub meta: Meta,
    pub betas: Matrix<T>,
    pub ses: Matrix<T>,
}

impl<T> GwasData<T> {
    /// There is a row for each variant and a column for each trait.
    pub open spec fn wf(&self) -> bool {
        &&& self.betas.wf()
        &&& self.ses.wf()
        &&& self.betas.rows() == self.meta.ids().len()
        &&& self.ses.rows() == self.meta.ids().len()
        &&& self.betas.cols() == self.meta.names().len()
        &&& self.ses.cols() == self.meta.names().len()
    }

    /// Puts a set of data together. Refused where the effect sizes or the
    /// standard errors are not one for each variant and trait.
    pub fn new(meta: Meta, betas: Matrix<T>, ses: Matrix<T>) -> (outcome: Result<Self, Error>)
        requires
            betas.wf(),
            ses.wf(),
        ensures
            ({
                let data = GwasData { meta, betas, ses };
                &&& data.wf() ==> outcome == Ok::<Self, Error>(data)
                &&& !data.wf() ==> outcome is Err && outcome->Err_0.kind == ErrorKind::Mocasa
                    && outcome->Err_0.message@ == MSG_DATA_SHAPES_DIFFER@
            }),
    {
        let n_data_points = meta.n_data_points();
        let n_traits = meta.n_traits();
        if betas.n_rows() == n_data_points && ses.n_rows() == n_data_points && betas.n_cols()
            == n_traits && ses.n_cols() == n_traits {
            Ok(GwasData { meta, betas, ses })
        } else {
            Err(Error::mocasa(MSG_DATA_SHAPES_DIFFER))
        }
    }

    pub fn n_data_points(&self) -> (n: usize)
        ensures
            n == self.meta.ids().len(),
    {
        self.meta.n_data_points()
    }

    pub fn n_traits(&self) -> (n: usize)
        ensures
            n == self.meta.names().len(),
    {
        self.meta.n_traits()
    }
}

/// The elements of one row of a matrix at the columns `is_col`.
fn pick<T: Copy>(matrix: &Matrix<T>, i_row: usize, is_col: &Vec<usize>) -> (picked: Matrix<T>)
    requires
        matrix.wf(),
        i_row < matrix.rows(),
        forall|k: int| 0 <= k < is_col@.len() ==> (#[trigger] is_col@[k]) < matrix.cols(),
    ensures
        picked.wf(),
        picked.rows() == 1,
        picked.cols() == is_col@.len(),
        picked@ == seq![
            Seq::new(is_col@.len(), |k: int| matrix@[i_row as int][is_col@[k] as int]),
        ],
{
    let mut elements: Vec<T> = Vec::new();
    let mut k: usize = 0;
    while k < is_col.len()
        invariant
            matrix.wf(),
            i_row < matrix.rows(),
            k <= is_col@.len(),
            forall|k: int| 0 <= k < is_col@.len() ==> (#[trigger] is_col@[k]) < matrix.cols(),
            elements@.len() == k,
            forall|j: int|
                0 <= j < k ==> (#[trigger] elements@[j]) == matrix@[i_row as int][is_col@[j] as int],
        decreases is_col@.len() - k,
    {
        elements.push(*matrix.get(i_row, is_col[k]));
        k += 1;
    }
    proof {
        assert(1 * is_col@.len() == is_col@.len()) by (nonlinear_arith);
    }
    match Matrix::from_vec(1, is_col.len(), elements) {
        Ok(picked) => {
            proof {
                picked.lemma_view();
                let target = seq![
                    Seq::new(is_col@.len(), |k: int| matrix@[i_row as int][is_col@[k] as int]),
                ];
                assert(picked@.len() == target.len());
                assert forall|i: int| 0 <= i < picked@.len() implies (#[trigger] picked@[i])
                    =~= target[i] by {
                    assert forall|c: int| 0 <= c < is_col@.len() implies picked@[i][c]
                        == target[i][c] by {
                        assert(crate::matrix::place(is_col@.len(), 0, c) == c) by (nonlinear_arith);
                    }
                }
                assert(picked@ =~= target);
            }
            picked
        },
        Err(_) => {
            proof {
                assert(false);
            }
            vstd::pervasive::unreached()
        },
    }
}

impl<T: Copy> GwasData<T> {
    /// The data of variant `i_row` alone, for the traits that were observed
    /// for it: `observed` marks them. Returns the data and the numbers of those
    /// traits, in rising order.
    pub fn only_data_point(&self, i_row: usize, observed: &Vec<bool>) -> (only: (
        GwasData<T>,
        Vec<usize>,
    ))
        requires
            self.wf(),
            i_row < self.meta.ids().len(),
            observed@.len() == self.meta.names().len(),
        ensures
            only.1@ == marked(observed@),
            only.0.wf(),
            only.0.meta.ids() == seq![self.meta.ids()[i_row as int]],
            only.0.meta.names() == Seq::new(
                only.1@.len(),
                |k: int| self.meta.names()[only.1@[k] as int],
            ),
            only.0.betas@ == seq![
                Seq::new(only.1@.len(), |k: int| self.betas@[i_row as int][only.1@[k] as int]),
            ],
            only.0.ses@ == seq![
                Seq::new(only.1@.len(), |k: int| self.ses@[i_row as int][only.1@[k] as int]),
            ],
    {
        let is_col = marked_places(observed);
        proof {
            assert(observed.len() == observed@.len());
            crate::select::lemma_marked(observed@);
        }
        let meta = self.meta.only_data_point(i_row, &is_col);
        let betas = pick(&self.betas, i_row, &is_col);
        let ses = pick(&self.ses, i_row, &is_col);
        (GwasData { meta, betas, ses }, is_col)
    }
}

/// Whether a value is missing for variant `i` and trait `j`.
pub open spec fn missing_at(
    beta_missing: Seq<Seq<bool>>,
    se_missing: Seq<Seq<bool>>,
    i: int,
    j: int,
) -> bool {
    beta_missing[i][j] || se_missing[i][j]
}

/// Whether place (`i`, `j`) comes before place (`i_at`, `j_at`), going row by row.
pub open spec fn comes_before(i: int, j: int, i_at: int, j_at: int) -> bool {
    i < i_at || (i == i_at && j < j_at)
}

/// What is said of a missing value: which of the two it is, for which trait
/// and for which variant.
pub open spec fn missing_message(of_beta: bool, name: Seq<char>, id: Seq<char>) -> Seq<char> {
    (if of_beta {
        "Missing beta for trait "@
    } else {
        "Missing se for trait "@
    }) + name + " for var id "@ + id
}

fn missing_error(of_beta: bool, name: &str, id: &str) -> (error: Error)
    ensures
        error.kind == ErrorKind::Mocasa,
        error.message@ == missing_message(of_beta, name@, id@),
{
    let mut message = if of_beta {
        String::from_str("Missing beta for trait ")
    } else {
        String::from_str("Missing se for trait ")
    };
    message.append(name);
    message.append(" for var id ");
    message.append(id);
    Error::new(ErrorKind::Mocasa, message)
}

/// Checks that no value is missing, as training needs it. `beta_missing` and
/// `se_missing` mark, for each variant and trait, an effect size or a
/// standard error that is missing. Fails on the first such place, going
/// variant by variant and within a variant trait by trait, and names the
/// effect size where both are missing.
pub fn check_complete(meta: &Meta, beta_missing: &Matrix<bool>, se_missing: &Matrix<bool>) -> (outcome:
    Result<(), Error>)
    requires
        beta_missing.wf(),
        se_missing.wf(),
        beta_missing.rows() == meta.ids().len(),
        se_missing.rows() == meta.ids().len(),
        beta_missing.cols() == meta.names().len(),
        se_missing.cols() == meta.names().len(),
    ensures
        outcome is Ok <==> forall|i: int, j: int|
            0 <= i < meta.ids().len() && 0 <= j < meta.names().len() ==> !#[trigger] missing_at(
                beta_missing@,
                se_missing@,
                i,
                j,
            ),
        outcome is Err ==> outcome->Err_0.kind == ErrorKind::Mocasa && exists|i_at: int, j_at: int|
            {
                &&& 0 <= i_at < meta.ids().len()
                &&& 0 <= j_at < meta.names().len()
                &&& #[trigger] missing_at(beta_missing@, se_missing@, i_at, j_at)
                &&& forall|i: int, j: int|
                    0 <= i < meta.ids().len() && 0 <= j < meta.names().len() && comes_before(
                        i,
                        j,
                        i_at,
                        j_at,
                    ) ==> !#[trigger] missing_at(beta_missing@, se_missing@, i, j)
                &&& outcome->Err_0.message@ == missing_message(
                    beta_missing@[i_at][j_at],
                    meta.names()[j_at],
                    meta.ids()[i_at],
                )
            },
{
    let n_data_points = meta.n_data_points();
    let n_traits = meta.n_traits();
    let mut i_data_point: usize = 0;
    while i_data_point < n_data_points
        invariant
            beta_missing.wf(),
            se_missing.wf(),
            n_data_points == meta.ids().len(),
            n_traits == meta.names().len(),
            beta_missing.rows() == n_data_points,
            se_missing.rows() == n_data_points,
            beta_missing.cols() == n_traits,
            se_missing.cols() == n_traits,
            i_data_point <= n_data_points,
            forall|i: int, j: int|
                0 <= i < i_data_point && 0 <= j < n_traits ==> !#[trigger] missing_at(
                    beta_missing@,
                    se_missing@,
                    i,
                    j,
                ),
        decreases n_data_points - i_data_point,
    {
        let mut i_trait: usize = 0;
        while i_trait < n_traits
            invariant
                beta_missing.wf(),
                se_missing.wf(),
                n_data_points == meta.ids().len(),
                n_traits == meta.names().len(),
                beta_missing.rows() == n_data_points,
                se_missing.rows() == n_data_points,
                beta_missing.cols() == n_traits,
                se_missing.cols() == n_traits,
                i_data_point < n_data_points,
                i_trait <= n_traits,
                forall|i: int, j: int|
                    0 <= i < n_data_points && 0 <= j < n_traits && comes_before(
                        i,
                        j,
                        i_data_point as int,
                        i_trait as int,
                    ) ==> !#[trigger] missing_at(beta_missing@, se_missing@, i, j),
            decreases n_traits - i_trait,
        {
            let of_beta = *beta_missing.get(i_data_point, i_trait);
            let of_se = *se_missing.get(i_data_point, i_trait);
            if of_beta || of_se {
                let error = missing_error(
                    of_beta,
                    meta.trait_names()[i_trait].as_str(),
                    meta.var_ids()[i_data_point].as_str(),
                );
                proof {
                    assert(missing_at(
                        beta_missing@,
                        se_missing@,
                        i_data_point as int,
                        i_trait as int,
                    ));
                }
                return Err(error);
            }
            proof {
                assert(!missing_at(
                    beta_missing@,
                    se_missing@,
                    i_data_point as int,
                    i_trait as int,
                ));
            }
            i_trait += 1;
        }
        i_data_point += 1;
    }
    Ok(())
}

} // verus!
