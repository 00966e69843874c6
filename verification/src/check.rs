use crate::error::Error;
use crate::error::ErrorKind;
use crate::text::count_string;
use crate::text::decimal;
use crate::text::find_first_difference;
use crate::text::first_difference;
use crate::text::views;
use vstd::prelude::*;
use vstd::string::StringExecFns;

verus! {

pub const MSG_NO_GWAS: &'static str = "No GWAS specified.";

/// Checks that the configuration names at least one set of observations.
pub fn check_config(n_gwas: usize) -> (outcome: Result<(), Error>)
    ensures
        n_gwas > 0 ==> outcome is Ok,
        n_gwas == 0 ==> outcome is Err && outcome->Err_0.kind == ErrorKind::Mocasa
            && outcome->Err_0.message@ == MSG_NO_GWAS@,
{
    if n_gwas == 0 {
        Err(Error::mocasa(MSG_NO_GWAS))
    } else {
        Ok(())
    }
}

/// What is wrong where the traits of the configuration are not those of the
/// parameters: their number, or else the first name that differs.
pub open spec fn params_mismatch(gwas_names: Seq<Seq<char>>, trait_names: Seq<Seq<char>>) -> Option<
    Seq<char>,
> {
    if gwas_names.len() != trait_names.len() {
        Some(
            "Number GWAS files ("@ + decimal(gwas_names.len())
                + ") does not match number of traits in params ("@ + decimal(trait_names.len())
                + ")"@,
        )
    } else {
        match first_difference(gwas_names, trait_names) {
            Some(i) => Some(
                "Trait name in GWAS file "@ + decimal(i as nat) + " ("@ + gwas_names[i]
                    + ") does not match trait name in params ("@ + trait_names[i] + ")"@,
            ),
            None => None,
        }
    }
}

/// Checks that the traits of the configuration are those of the parameters,
/// in the same order.
pub fn check_params(gwas_names: &Vec<String>, trait_names: &Vec<String>) -> (outcome: Result<
    (),
    Error,
>)
    ensures
        outcome is Ok <==> params_mismatch(views(gwas_names@), views(trait_names@)) is None,
        outcome is Ok <==> views(gwas_names@) == views(trait_names@),
        outcome is Err ==> outcome->Err_0.kind == ErrorKind::Mocasa && outcome->Err_0.message@
            == params_mismatch(views(gwas_names@), views(trait_names@))->0,
{
    if gwas_names.len() != trait_names.len() {
        let mut message = String::from_str("Number GWAS files (");
        message.append(count_string(gwas_names.len()).as_str());
        message.append(") does not match number of traits in params (");
        message.append(count_string(trait_names.len()).as_str());
        message.append(")");
        return Err(Error::new(ErrorKind::Mocasa, message));
    }
    match find_first_difference(gwas_names, trait_names) {
        Some(i) => {
            let mut message = String::from_str("Trait name in GWAS file ");
            message.append(count_string(i).as_str());
            message.append(" (");
            message.append(gwas_names[i].as_str());
            message.append(") does not match trait name in params (");
            message.append(trait_names[i].as_str());
            message.append(")");
            Err(Error::new(ErrorKind::Mocasa, message))
        },
        None => {
            proof {
                let a = views(gwas_names@);
                let b = views(trait_names@);
                assert forall|i: int| 0 <= i < a.len() implies a[i] == b[i] by {
                    if a[i] != b[i] {
                        lemma_some_difference(a, b, i);
                    }
                }
                assert(a =~= b);
            }
            Ok(())
        },
    }
}

/// Where two lists differ at a place that both have, there is a first such
/// place.
pub proof fn lemma_some_difference(a: Seq<Seq<char>>, b: Seq<Seq<char>>, i: int)
    requires
        0 <= i < a.len(),
        i < b.len(),
        a[i] != b[i],
    ensures
        first_difference(a, b) is Some,
    decreases i,
{
    if forall|j: int| 0 <= j < i ==> #[trigger] a[j] == b[j] {
        assert(crate::text::is_first_difference(a, b, i));
    } else {
        let j = choose|j: int| 0 <= j < i && #[trigger] a[j] != b[j];
        lemma_some_difference(a, b, j);
    }
}

} // verus!
