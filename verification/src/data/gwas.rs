use crate::error::Error;
use crate::error::ErrorKind;
use crate::text::chars_of;
use crate::text::pieces;
use crate::text::split;
use crate::text::str_equal;
use crate::text::views;
use crate::text::Delims;
use vstd::prelude::*;
use vstd::string::StringExecFns;

verus! {

pub const VAR_ID: &'static str = "VAR_ID";

pub const BETA: &'static str = "BETA";

pub const SE: &'static str = "SE";

pub const MISSING_DELIM_MSG: &'static str =
    "Can only parse data files with semicolon, tab, comma or single blank as delimiter.";

pub const MSG_EMPTY_FILE: &'static str = "File is empty";

/// The heads of the three columns that are read from a file of observations.
#[derive(Clone, Debug)]
pub struct GwasCols {
    pub id: String,
    pub effect: String,
    pub se: String,
}

impl GwasCols {
    /// The heads that a file has where the configuration names none.
    pub fn standard() -> (cols: GwasCols)
        ensures
            cols.id@ == VAR_ID@,
            cols.effect@ == BETA@,
            cols.se@ == SE@,
    {
        GwasCols {
            id: String::from_str(VAR_ID),
            effect: String::from_str(BETA),
            se: String::from_str(SE),
        }
    }
}

impl Default for GwasCols {
    fn default() -> (cols: GwasCols)
        ensures
            cols.id@ == VAR_ID@,
            cols.effect@ == BETA@,
            cols.se@ == SE@,
    {
        GwasCols::standard()
    }
}

/// The character that separates the columns of a file whose first line is
/// `header`: the first of semicolon, tab, comma and blank that the line holds.
pub open spec fn delim_of(header: Seq<char>) -> Option<char> {
    if header.contains(';') {
        Some(';')
    } else if header.contains('\t') {
        Some('\t')
    } else if header.contains(',') {
        Some(',')
    } else if header.contains(' ') {
        Some(' ')
    } else {
        None
    }
}

fn holds(chars: &Vec<char>, c: char) -> (found: bool)
    ensures
        found == chars@.contains(c),
{
    let mut i: usize = 0;
    while i < chars.len()
        invariant
            i <= chars@.len(),
            forall|j: int| 0 <= j < i ==> (#[trigger] chars@[j]) != c,
        decreases chars@.len() - i,
    {
        if chars[i] == c {
            return true;
        }
        i += 1;
    }
    false
}

/// Finds the character that separates the columns. Refused where the first
/// line holds none of the four.
pub fn get_delim(header: &str) -> (outcome: Result<char, Error>)
    ensures
        delim_of(header@) is Some ==> outcome == Ok::<char, Error>(delim_of(header@)->0),
        delim_of(header@) is None ==> outcome is Err && outcome->Err_0.kind == ErrorKind::Mocasa
            && outcome->Err_0.message@ == MISSING_DELIM_MSG@,
{
    let chars = chars_of(header);
    if holds(&chars, ';') {
        Ok(';')
    } else if holds(&chars, '\t') {
        Ok('\t')
    } else if holds(&chars, ',') {
        Ok(',')
    } else if holds(&chars, ' ') {
        Ok(' ')
    } else {
        Err(Error::mocasa(MISSING_DELIM_MSG))
    }
}

/// Where the three columns stand among the heads of a file: for each the
/// last place that holds its head. A head that stands for two of the columns
/// counts for the identifier before the effect size, and for the effect size
/// before the standard error.
pub open spec fn places(heads: Seq<Seq<char>>, id: Seq<char>, effect: Seq<char>, se: Seq<char>) -> (
    Option<int>,
    Option<int>,
    Option<int>,
)
    decreases heads.len(),
{
    if heads.len() == 0 {
        (None, None, None)
    } else {
        let before = places(heads.drop_last(), id, effect, se);
        let i = heads.len() - 1;
        if heads.last() == id {
            (Some(i), before.1, before.2)
        } else if heads.last() == effect {
            (before.0, Some(i), before.2)
        } else if heads.last() == se {
            (before.0, before.1, Some(i))
        } else {
            before
        }
    }
}

/// What is said of a column that the first line does not name.
pub open spec fn no_column_message(head: Seq<char>) -> Seq<char> {
    "No "@ + head + " column"@
}

fn no_column_error(head: &str) -> (error: Error)
    ensures
        error.kind == ErrorKind::Mocasa,
        error.message@ == no_column_message(head@),
{
    let mut message = String::from_str("No ");
    message.append(head);
    message.append(" column");
    Error::new(ErrorKind::Mocasa, message)
}

/// What is said of a line that has no value in a column.
pub open spec fn missing_value_message(head: Seq<char>) -> Seq<char> {
    "Missing value for '"@ + head + "'."@
}

pub fn missing_value_error(col: &str) -> (error: Error)
    ensures
        error.kind == ErrorKind::Mocasa,
        error.message@ == missing_value_message(col@),
{
    let mut message = String::from_str("Missing value for '");
    message.append(col);
    message.append("'.");
    Error::new(ErrorKind::Mocasa, message)
}

/// How the lines of a file of observations are read: what separates the
/// columns, and in which columns the identifier of the variant, the effect
/// size and its standard error stand.
#[derive(Clone, Debug)]
pub struct GwasReader {
    pub delim: char,
    pub i_var_id: usize,
    pub i_beta: usize,
    pub i_se: usize,
    pub cols: GwasCols,
}

/// The three values of a line, as far as the line has them, as they are
/// written.
#[derive(Clone, Debug)]
pub struct GwasFields {
    pub var_id: Option<String>,
    pub beta: Option<String>,
    pub se: Option<String>,
}

/// The part of a line in column `i`, if the line has that many columns.
pub open spec fn field(parts: Seq<Seq<char>>, i: int) -> Option<Seq<char>> {
    if 0 <= i < parts.len() {
        Some(parts[i])
    } else {
        None
    }
}

fn take_field(parts: &Vec<String>, i: usize) -> (found: Option<String>)
    ensures
        found is Some == field(views(parts@), i as int) is Some,
        found is Some ==> found->0@ == field(views(parts@), i as int)->0,
{
    if i < parts.len() {
        Some(parts[i].clone())
    } else {
        None
    }
}

impl GwasReader {
    /// Reads from the first line of a file how its lines are to be read, for
    /// the given heads of the three columns. Refused where the file has no
    /// line, where the first line holds no separator, and where it does not
    /// name one of the columns: the identifier first, then the effect size,
    /// then the standard error.
    pub fn new(header: Option<&str>, cols: GwasCols) -> (outcome: Result<GwasReader, Error>)
        ensures
            header is None ==> outcome is Err && outcome->Err_0.kind == ErrorKind::Mocasa
                && outcome->Err_0.message@ == MSG_EMPTY_FILE@,
            header is Some && delim_of(header->0@) is None ==> outcome is Err
                && outcome->Err_0.kind == ErrorKind::Mocasa && outcome->Err_0.message@
                == MISSING_DELIM_MSG@,
            header is Some && delim_of(header->0@) is Some ==> ({
                let delim = delim_of(header->0@)->0;
                let found = places(
                    pieces(header->0@, Delims::One(delim)),
                    cols.id@,
                    cols.effect@,
                    cols.se@,
                );
                &&& found.0 is Some && found.1 is Some && found.2 is Some ==> outcome is Ok
                    && outcome->Ok_0.delim == delim && outcome->Ok_0.i_var_id == found.0->0
                    && outcome->Ok_0.i_beta == found.1->0 && outcome->Ok_0.i_se == found.2->0
                    && outcome->Ok_0.cols == cols
                &&& found.0 is None || found.1 is None || found.2 is None ==> outcome is Err
                    && outcome->Err_0.kind == ErrorKind::Mocasa && outcome->Err_0.message@
                    == no_column_message(
                    if found.0 is None {
                        cols.id@
                    } else if found.1 is None {
                        cols.effect@
                    } else {
                        cols.se@
                    },
                )
            }),
    {
        let header = match header {
            Some(header) => header,
            None => {
                return Err(Error::mocasa(MSG_EMPTY_FILE));
            },
        };
        let delim = match get_delim(header) {
            Ok(delim) => delim,
            Err(error) => {
                return Err(error);
            },
        };
        let heads = split(header, Delims::One(delim));
        let mut i_var_id_opt: Option<usize> = None;
        let mut i_beta_opt: Option<usize> = None;
        let mut i_se_opt: Option<usize> = None;
        let mut i: usize = 0;
        while i < heads.len()
            invariant
                i <= heads@.len(),
                ({
                    let found = places(
                        views(heads@).take(i as int),
                        cols.id@,
                        cols.effect@,
                        cols.se@,
                    );
                    &&& i_var_id_opt is Some == found.0 is Some
                    &&& i_var_id_opt is Some ==> i_var_id_opt->0 == found.0->0
                    &&& i_beta_opt is Some == found.1 is Some
                    &&& i_beta_opt is Some ==> i_beta_opt->0 == found.1->0
                    &&& i_se_opt is Some == found.2 is Some
                    &&& i_se_opt is Some ==> i_se_opt->0 == found.2->0
                }),
            decreases heads@.len() - i,
        {
            proof {
                let now = views(heads@).take(i + 1);
                assert(now.drop_last() =~= views(heads@).take(i as int));
                assert(now.last() == heads@[i as int]@);
            }
            let col = heads[i].as_str();
            if str_equal(col, cols.id.as_str()) {
                i_var_id_opt = Some(i);
            } else if str_equal(col, cols.effect.as_str()) {
                i_beta_opt = Some(i);
            } else if str_equal(col, cols.se.as_str()) {
                i_se_opt = Some(i);
            }
            i += 1;
        }
        proof {
            assert(views(heads@).take(i as int) =~= views(heads@));
        }
        let i_var_id = match i_var_id_opt {
            Some(i_var_id) => i_var_id,
            None => {
                return Err(no_column_error(cols.id.as_str()));
            },
        };
        let i_beta = match i_beta_opt {
            Some(i_beta) => i_beta,
            None => {
                return Err(no_column_error(cols.effect.as_str()));
            },
        };
        let i_se = match i_se_opt {
            Some(i_se) => i_se,
            None => {
                return Err(no_column_error(cols.se.as_str()));
            },
        };
        Ok(GwasReader { delim, i_var_id, i_beta, i_se, cols })
    }

    /// Cuts a line into its columns and hands out the three that are read.
    pub fn fields(&self, line: &str) -> (fields: GwasFields)
        ensures
            ({
                let parts = pieces(line@, Delims::One(self.delim));
                &&& fields.var_id is Some == field(parts, self.i_var_id as int) is Some
                &&& fields.var_id is Some ==> fields.var_id->0@ == parts[self.i_var_id as int]
                &&& fields.beta is Some == field(parts, self.i_beta as int) is Some
                &&& fields.beta is Some ==> fields.beta->0@ == parts[self.i_beta as int]
                &&& fields.se is Some == field(parts, self.i_se as int) is Some
                &&& fields.se is Some ==> fields.se->0@ == parts[self.i_se as int]
            }),
    {
        let parts = split(line, Delims::One(self.delim));
        GwasFields {
            var_id: take_field(&parts, self.i_var_id),
            beta: take_field(&parts, self.i_beta),
            se: take_field(&parts, self.i_se),
        }
    }
}

} // verus!
