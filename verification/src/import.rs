use crate::check::lemma_some_difference;
use crate::error::Error;
use crate::error::ErrorKind;
use crate::text::count_string;
use crate::text::decimal;
use crate::text::find_first_difference;
use crate::text::first_difference;
use crate::text::pieces;
use crate::text::split;
use crate::text::str_equal;
use crate::text::trim;
use crate::text::trimmed;
use crate::text::views;
use crate::text::Delims;
use vstd::prelude::*;
use vstd::string::StringExecFns;

verus! {

pub const MSG_END_OF_FILE: &'static str = "Unexpected end of file";

/// What a line of a file of parameters holds once the white space around it
/// is gone: nothing to read where it is empty or starts with `#`.
pub open spec fn content_spec(line: Seq<char>) -> Option<Seq<char>> {
    let content = trimmed(line);
    if content.len() == 0 || content[0] == '#' {
        None
    } else {
        Some(content)
    }
}

/// Reads what a line holds, if anything.
pub fn content(line: &str) -> (content: Option<String>)
    ensures
        content is Some == content_spec(line@) is Some,
        content is Some ==> content->0@ == content_spec(line@)->0,
{
    let content = trim(line);
    let chars = crate::text::chars_of(content.as_str());
    if chars.len() == 0 || chars[0] == '#' {
        None
    } else {
        Some(content)
    }
}

/// What is said of a line that starts with another word than expected.
pub open spec fn wrong_prefix_message(prefix: Seq<char>, found: Seq<char>) -> Seq<char> {
    "Expected line starting with '"@ + prefix + "', got '"@ + found + "'"@
}

/// Reads the values of a line that starts with the word `prefix`, each
/// separated from the next by a tab. Refused where there is no line, and where
/// the line starts with another word.
pub fn next_line_prefix(prefix: &str, line: Option<&str>) -> (outcome: Result<Vec<String>, Error>)
    ensures
        line is None ==> outcome is Err && outcome->Err_0.kind == ErrorKind::Mocasa
            && outcome->Err_0.message@ == MSG_END_OF_FILE@,
        line is Some && pieces(line->0@, Delims::One('\t'))[0] == prefix@ ==> outcome is Ok
            && views(outcome->Ok_0@) == pieces(line->0@, Delims::One('\t')).drop_first(),
        line is Some && pieces(line->0@, Delims::One('\t'))[0] != prefix@ ==> outcome is Err
            && outcome->Err_0.kind == ErrorKind::Mocasa && outcome->Err_0.message@
            == wrong_prefix_message(prefix@, pieces(line->0@, Delims::One('\t'))[0]),
{
    match line {
        None => Err(Error::mocasa(MSG_END_OF_FILE)),
        Some(line) => {
            proof {
                crate::text::lemma_pieces_len(line@, Delims::One('\t'));
            }
            let mut parts = split(line, Delims::One('\t'));
            let ghost all = parts@;
            let first = parts.remove(0);
            if str_equal(first.as_str(), prefix) {
                proof {
                    assert(views(parts@) =~= views(all).drop_first());
                }
                Ok(parts)
            } else {
                let mut message = String::from_str("Expected line starting with '");
                message.append(prefix);
                message.append("', got '");
                message.append(first.as_str());
                message.append("'");
                Err(Error::new(ErrorKind::Mocasa, message))
            }
        },
    }
}

/// Reads the texts of a line that starts with the word `prefix`.
pub fn next_line_prefix_strings(prefix: &str, line: Option<&str>) -> (outcome: Result<
    Vec<String>,
    Error,
>)
    ensures
        line is None ==> outcome is Err && outcome->Err_0.kind == ErrorKind::Mocasa
            && outcome->Err_0.message@ == MSG_END_OF_FILE@,
        line is Some && pieces(line->0@, Delims::One('\t'))[0] == prefix@ ==> outcome is Ok
            && views(outcome->Ok_0@) == pieces(line->0@, Delims::One('\t')).drop_first(),
        line is Some && pieces(line->0@, Delims::One('\t'))[0] != prefix@ ==> outcome is Err
            && outcome->Err_0.kind == ErrorKind::Mocasa && outcome->Err_0.message@
            == wrong_prefix_message(prefix@, pieces(line->0@, Delims::One('\t'))[0]),
{
    next_line_prefix(prefix, line)
}

/// Checks that a file has no line left. Refused where it has one.
pub fn assert_no_more_lines(line: Option<&str>, file: &str) -> (outcome: Result<(), Error>)
    ensures
        line is None ==> outcome is Ok,
        line is Some ==> outcome is Err && outcome->Err_0.kind == ErrorKind::Mocasa
            && outcome->Err_0.message@ == "Unexpected line in "@ + file@ + ": '"@ + line->0@
            + "'"@,
{
    match line {
        None => Ok(()),
        Some(line) => {
            let mut message = String::from_str("Unexpected line in ");
            message.append(file);
            message.append(": '");
            message.append(line);
            message.append("'");
            Err(Error::new(ErrorKind::Mocasa, message))
        },
    }
}

/// What is said of two lists that have not the same number of values.
pub open spec fn lengths_message(name1: Seq<char>, len1: nat, name2: Seq<char>, len2: nat) -> Seq<
    char,
> {
    name1 + " has "@ + decimal(len1) + " values, but "@ + name2 + " has "@ + decimal(len2)
        + " values."@
}

/// Checks that two lists have the same number of values.
pub fn check_same_length<T1, T2>(
    name1: &str,
    values1: &Vec<T1>,
    name2: &str,
    values2: &Vec<T2>,
) -> (outcome: Result<(), Error>)
    ensures
        values1@.len() == values2@.len() ==> outcome is Ok,
        values1@.len() != values2@.len() ==> outcome is Err && outcome->Err_0.kind
            == ErrorKind::Mocasa && outcome->Err_0.message@ == lengths_message(
            name1@,
            values1@.len(),
            name2@,
            values2@.len(),
        ),
{
    if values1.len() != values2.len() {
        let mut message = String::from_str(name1);
        message.append(" has ");
        message.append(count_string(values1.len()).as_str());
        message.append(" values, but ");
        message.append(name2);
        message.append(" has ");
        message.append(count_string(values2.len()).as_str());
        message.append(" values.");
        Err(Error::new(ErrorKind::Mocasa, message))
    } else {
        Ok(())
    }
}

/// What is wrong where two lists of texts are not the same: their lengths,
/// or else the first place at which they differ.
pub open spec fn strings_mismatch(
    name1: Seq<char>,
    strings1: Seq<Seq<char>>,
    name2: Seq<char>,
    strings2: Seq<Seq<char>>,
) -> Option<Seq<char>> {
    if strings1.len() != strings2.len() {
        Some(lengths_message(name1, strings1.len(), name2, strings2.len()))
    } else {
        match first_difference(strings1, strings2) {
            Some(i) => Some(
                "In position "@ + decimal(i as nat) + ", "@ + name1 + " has value '"@ + strings1[i]
                    + "', but "@ + name2 + " has value '"@ + strings2[i] + "'."@,
            ),
            None => None,
        }
    }
}

/// Checks that two lists hold the same texts in the same order.
pub fn check_same_strings(
    name1: &str,
    strings1: &Vec<String>,
    name2: &str,
    strings2: &Vec<String>,
) -> (outcome: Result<(), Error>)
    ensures
        outcome is Ok <==> views(strings1@) == views(strings2@),
        outcome is Ok <==> strings_mismatch(name1@, views(strings1@), name2@, views(strings2@))
            is None,
        outcome is Err ==> outcome->Err_0.kind == ErrorKind::Mocasa && outcome->Err_0.message@
            == strings_mismatch(name1@, views(strings1@), name2@, views(strings2@))->0,
{
    match check_same_length(name1, strings1, name2, strings2) {
        Err(error) => {
            return Err(error);
        },
        Ok(_) => {},
    }
    match find_first_difference(strings1, strings2) {
        Some(i) => {
            let mut message = String::from_str("In position ");
            message.append(count_string(i).as_str());
            message.append(", ");
            message.append(name1);
            message.append(" has value '");
            message.append(strings1[i].as_str());
            message.append("', but ");
            message.append(name2);
            message.append(" has value '");
            message.append(strings2[i].as_str());
            message.append("'.");
            Err(Error::new(ErrorKind::Mocasa, message))
        },
        None => {
            proof {
                let a = views(strings1@);
                let b = views(strings2@);
                assert forall|i: int| 0 <= i < a.len() implies a[i] == b[i] by {
                    if a[i] != b[i] {
                        lemma_some_difference(a, b, i);
                    }
                }
                assert(a =~= b);
            }
            Ok(())
        },
    }
}

} // verus!
