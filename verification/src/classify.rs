use crate::options::Chunking;
use crate::text::count_string;
use crate::text::decimal;
use crate::text::join;
use crate::text::joined;
use crate::text::str_equal;
use crate::text::views;
use vstd::prelude::*;
use vstd::string::StringExecFns;

verus! {

/// Where part `i_chunk` of `n_chunks` ends, when `n` data points are cut
/// into parts of nearly the same size.
pub open spec fn chunk_bound(n: nat, n_chunks: nat, i_chunk: nat) -> nat {
    i_chunk * n / n_chunks
}

/// The parts follow each other without a gap, the first starts at the first
/// data point and the last ends with the last.
pub proof fn lemma_chunks_cover(n: nat, n_chunks: nat, i_chunk: nat)
    requires
        1 <= i_chunk <= n_chunks,
    ensures
        chunk_bound(n, n_chunks, 0) == 0,
        chunk_bound(n, n_chunks, n_chunks) == n,
        chunk_bound(n, n_chunks, (i_chunk - 1) as nat) <= chunk_bound(n, n_chunks, i_chunk),
        chunk_bound(n, n_chunks, i_chunk) <= n,
{
    let c = n_chunks as int;
    let m = n as int;
    let i = i_chunk as int;
    lemma_share(m, c, 0);
    lemma_share(m, c, i - 1);
    lemma_share(m, c, i);
    lemma_share(m, c, c);
    vstd::arithmetic::mul::lemma_mul_is_commutative(c, m);
    vstd::arithmetic::div_mod::lemma_div_multiples_vanish(m, c);
    vstd::arithmetic::mul::lemma_mul_inequality(i - 1, i, m);
    vstd::arithmetic::div_mod::lemma_div_is_ordered((i - 1) * m, i * m, c);
}

/// The first `i` of `c` parts of `m` things are no fewer than none and no
/// more than all.
proof fn lemma_share(m: int, c: int, i: int)
    requires
        0 <= i <= c,
        c > 0,
        m >= 0,
    ensures
        0 <= i * m / c <= m,
        0 <= i * m <= c * m,
{
    vstd::arithmetic::mul::lemma_mul_nonnegative(i, m);
    vstd::arithmetic::mul::lemma_mul_inequality(i, c, m);
    vstd::arithmetic::div_mod::lemma_div_pos_is_pos(i * m, c);
    vstd::arithmetic::div_mod::lemma_div_is_ordered(i * m, c * m, c);
    vstd::arithmetic::div_mod::lemma_div_multiples_vanish(m, c);
}

fn bound(n: usize, n_chunks: usize, i_chunk: usize) -> (at: usize)
    requires
        i_chunk <= n_chunks,
        n_chunks >= 1,
    ensures
        at == chunk_bound(n as nat, n_chunks as nat, i_chunk as nat),
        at <= n,
{
    proof {
        let c = n_chunks as int;
        let m = n as int;
        let i = i_chunk as int;
        lemma_share(m, c, i);
        vstd::arithmetic::mul::lemma_mul_inequality(c, 0xffff_ffff_ffff_ffff, m);
        vstd::arithmetic::mul::lemma_mul_is_commutative(0xffff_ffff_ffff_ffff, m);
        vstd::arithmetic::mul::lemma_mul_inequality(
            m,
            0xffff_ffff_ffff_ffff,
            0xffff_ffff_ffff_ffff,
        );
    }
    let product: u128 = (i_chunk as u128) * (n as u128);
    (product / (n_chunks as u128)) as usize
}

/// The data points to classify, from the first to before the second number
/// returned: all of them where no part is asked for, else the part asked for.
pub fn chunk_range(n_data_points: usize, chunking: &Option<Chunking>) -> (range: (usize, usize))
    requires
        chunking is Some ==> 1 <= chunking->0.i_chunk <= chunking->0.n_chunks,
    ensures
        range.0 <= range.1 <= n_data_points,
        chunking is None ==> range == (0usize, n_data_points),
        chunking is Some ==> range.0 == chunk_bound(
            n_data_points as nat,
            chunking->0.n_chunks as nat,
            (chunking->0.i_chunk - 1) as nat,
        ) && range.1 == chunk_bound(
            n_data_points as nat,
            chunking->0.n_chunks as nat,
            chunking->0.i_chunk as nat,
        ),
{
    match chunking {
        None => (0, n_data_points),
        Some(chunking) => {
            proof {
                lemma_chunks_cover(
                    n_data_points as nat,
                    chunking.n_chunks as nat,
                    chunking.i_chunk as nat,
                );
            }
            let start = bound(n_data_points, chunking.n_chunks, chunking.i_chunk - 1);
            let end = bound(n_data_points, chunking.n_chunks, chunking.i_chunk);
            (start, end)
        },
    }
}

/// The name of the file that takes the results: the name configured, and
/// behind it, where a part is asked for, a `_` and the number of the part.
pub open spec fn out_file_spec(out_file: Seq<char>, chunking: Option<Chunking>) -> Seq<char> {
    match chunking {
        None => out_file,
        Some(chunking) => out_file + "_"@ + decimal(chunking.i_chunk as nat),
    }
}

pub fn out_file_name(out_file: &str, chunking: &Option<Chunking>) -> (name: String)
    ensures
        name@ == out_file_spec(out_file@, *chunking),
{
    let mut name = String::from_str(out_file);
    match chunking {
        None => {},
        Some(chunking) => {
            name.append("_");
            name.append(count_string(chunking.i_chunk).as_str());
        },
    }
    name
}

/// The name of the file that takes the results while they come in.
pub fn temp_file_name(out_file: &str) -> (name: String)
    ensures
        name@ == out_file@ + "_tmp"@,
{
    let mut name = String::from_str(out_file);
    name.append("_tmp");
    name
}

/// The heads of the three columns of endophenotype `i`.
pub open spec fn endo_heads(i: nat) -> Seq<char> {
    "e_"@ + decimal(i) + "_mean\te_"@ + decimal(i) + "_std\te_"@ + decimal(i) + "_z"@
}

/// The first line of a file of results: `id`, three columns for each
/// endophenotype, one more for the value computed in closed form where there
/// is a single endophenotype, and a column for each trait, with tabs between
/// them.
pub open spec fn header_spec(n_endos: nat, trait_names: Seq<Seq<char>>) -> Seq<char> {
    let e_part = joined("\t"@, Seq::new(n_endos, |i: int| endo_heads(i as nat)));
    let traits_part = joined("\t"@, trait_names);
    if n_endos == 1 {
        "id\t"@ + e_part + "\te_mean_calc\t"@ + traits_part
    } else {
        "id\t"@ + e_part + "\t"@ + traits_part
    }
}

/// Writes the first line of a file of results, without the end of the line.
pub fn header(n_endos: usize, trait_names: &Vec<String>) -> (line: String)
    ensures
        line@ == header_spec(n_endos as nat, views(trait_names@)),
{
    let mut heads: Vec<String> = Vec::new();
    let mut i_endo: usize = 0;
    while i_endo < n_endos
        invariant
            i_endo <= n_endos,
            heads@.len() == i_endo,
            forall|i: int| 0 <= i < i_endo ==> (#[trigger] heads@[i])@ == endo_heads(i as nat),
        decreases n_endos - i_endo,
    {
        let number = count_string(i_endo);
        let mut head = String::from_str("e_");
        head.append(number.as_str());
        head.append("_mean\te_");
        head.append(number.as_str());
        head.append("_std\te_");
        head.append(number.as_str());
        head.append("_z");
        heads.push(head);
        i_endo += 1;
    }
    proof {
        assert(views(heads@) =~= Seq::new(n_endos as nat, |i: int| endo_heads(i as nat)));
    }
    let mut line = String::from_str("id\t");
    line.append(join("\t", &heads).as_str());
    if n_endos == 1 {
        line.append("\te_mean_calc\t");
    } else {
        line.append("\t");
    }
    line.append(join("\t", trait_names).as_str());
    line
}

/// Whether the sampling for a variant is to be traced: where a list of
/// variants to trace is configured, the variant has an identifier, and the
/// list holds it.
pub open spec fn traced_spec(trace_ids: Option<Seq<Seq<char>>>, var_id: Option<Seq<char>>) -> bool {
    trace_ids is Some && var_id is Some && trace_ids->0.contains(var_id->0)
}

pub fn is_traced(trace_ids: &Option<Vec<String>>, var_id: Option<&String>) -> (traced: bool)
    ensures
        traced == traced_spec(
            match *trace_ids {
                Some(ids) => Some(views(ids@)),
                None => None,
            },
            match var_id {
                Some(id) => Some(id@),
                None => None,
            },
        ),
{
    match (trace_ids, var_id) {
        (Some(ids), Some(id)) => {
            let mut i: usize = 0;
            while i < ids.len()
                invariant
                    *trace_ids == Some(*ids),
                    var_id == Some(id),
                    i <= ids@.len(),
                    forall|j: int| 0 <= j < i ==> (#[trigger] views(ids@)[j]) != id@,
                decreases ids@.len() - i,
            {
                if str_equal(ids[i].as_str(), id.as_str()) {
                    proof {
                        assert(0 <= i < views(ids@).len() && views(ids@)[i as int] == id@);
                        assert(views(ids@).contains(id@));
                    }
                    return true;
                }
                i += 1;
            }
            false
        },
        _ => false,
    }
}

} // verus!
