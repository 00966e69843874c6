use crate::error::Error;
use crate::error::ErrorKind;
use crate::text::chars_of;
use crate::text::pieces;
use crate::text::split;
use crate::text::str_equal;
use crate::text::trim;
use crate::text::trimmed;
use crate::text::views;
use crate::text::Delims;
use vstd::prelude::*;
use vstd::string::StringExecFns;

verus! {

pub const VAR_ID_FILE: &'static str = "var_id_file";

pub const CONFIG_FILE: &'static str = "config_file";

pub const OUTPUT_FILE: &'static str = "output_file";

pub const DECLARE: &'static str = "declare";

pub const TRAIT: &'static str = "trait";

pub const ENDO: &'static str = "endo";

pub const FILE: &'static str = "file";

pub const ID_COL: &'static str = "id_col";

pub const EFFECT_COL: &'static str = "effect_col";

pub const SE_COL: &'static str = "se_col";

pub const BETA: &'static str = "beta";

pub const VAR: &'static str = "var";

pub const MEAN: &'static str = "mean";

/// What a line of a phenotype network's configuration says of the trait or
/// endophenotype that it names.
#[derive(Clone, Copy, PartialEq, Eq, Debug, Structural)]
pub enum PhenetKey {
    DeclareTrait,
    DeclareEndo,
    File,
    IdCol,
    EffectCol,
    SeCol,
    Beta,
    Var,
    Mean,
    /// Something that is not read.
    Ignored,
}

/// One line of a phenotype network's configuration: the name it speaks of,
/// what it says of it, and the value it gives.
#[derive(Clone, Debug)]
pub struct PhenetEntry {
    pub key: PhenetKey,
    pub name: String,
    pub value: String,
}

/// The parts of a line: what stands between the white space in it, once the
/// white space around it is gone.
pub open spec fn words(line: Seq<char>) -> Seq<Seq<char>> {
    pieces(trimmed(line), Delims::Whitespace)
}

/// What the second and third word of a line say.
pub open spec fn phenet_key(second: Seq<char>, third: Seq<char>) -> PhenetKey {
    if second == DECLARE@ && third == TRAIT@ {
        PhenetKey::DeclareTrait
    } else if second == DECLARE@ && third == ENDO@ {
        PhenetKey::DeclareEndo
    } else if second == FILE@ {
        PhenetKey::File
    } else if second == ID_COL@ {
        PhenetKey::IdCol
    } else if second == EFFECT_COL@ {
        PhenetKey::EffectCol
    } else if second == SE_COL@ {
        PhenetKey::SeCol
    } else if second == BETA@ {
        PhenetKey::Beta
    } else if second == VAR@ {
        PhenetKey::Var
    } else if second == MEAN@ {
        PhenetKey::Mean
    } else {
        PhenetKey::Ignored
    }
}

fn find_key(second: &str, third: &str) -> (key: PhenetKey)
    ensures
        key == phenet_key(second@, third@),
{
    if str_equal(second, DECLARE) && str_equal(third, TRAIT) {
        PhenetKey::DeclareTrait
    } else if str_equal(second, DECLARE) && str_equal(third, ENDO) {
        PhenetKey::DeclareEndo
    } else if str_equal(second, FILE) {
        PhenetKey::File
    } else if str_equal(second, ID_COL) {
        PhenetKey::IdCol
    } else if str_equal(second, EFFECT_COL) {
        PhenetKey::EffectCol
    } else if str_equal(second, SE_COL) {
        PhenetKey::SeCol
    } else if str_equal(second, BETA) {
        PhenetKey::Beta
    } else if str_equal(second, VAR) {
        PhenetKey::Var
    } else if str_equal(second, MEAN) {
        PhenetKey::Mean
    } else {
        PhenetKey::Ignored
    }
}

/// Reads one line of a phenotype network's configuration. A line of white
/// space alone holds nothing. Any other line has to have three words, with
/// one character of white space between each two; it is refused where it has
/// not.
pub fn parse_phenet_line(line: &str) -> (outcome: Result<Option<PhenetEntry>, Error>)
    ensures
        trimmed(line@).len() == 0 ==> outcome is Ok && outcome->Ok_0 is None,
        trimmed(line@).len() > 0 && words(line@).len() == 3 ==> outcome is Ok && outcome->Ok_0
            is Some && outcome->Ok_0->0.key == phenet_key(words(line@)[1], words(line@)[2])
            && outcome->Ok_0->0.name@ == words(line@)[0] && outcome->Ok_0->0.value@ == words(
            line@,
        )[2],
        trimmed(line@).len() > 0 && words(line@).len() != 3 ==> outcome is Err
            && outcome->Err_0.kind == ErrorKind::Mocasa && outcome->Err_0.message@
            == "Cannot parse line: '"@ + trimmed(line@) + "'."@,
{
    let content = trim(line);
    let chars = chars_of(content.as_str());
    if chars.len() == 0 {
        return Ok(None);
    }
    let mut parts = split(content.as_str(), Delims::Whitespace);
    if parts.len() != 3 {
        let mut message = String::from_str("Cannot parse line: '");
        message.append(content.as_str());
        message.append("'.");
        return Err(Error::new(ErrorKind::Mocasa, message));
    }
    let ghost all = parts@;
    let key = find_key(parts[1].as_str(), parts[2].as_str());
    let value = parts.remove(2);
    let name = parts.remove(0);
    proof {
        assert(views(all)[1] == all[1]@);
        assert(views(all)[2] == all[2]@);
        assert(views(all)[0] == all[0]@);
    }
    Ok(Some(PhenetEntry { key, name, value }))
}

/// What a line of the options of a phenotype network sets.
#[derive(Clone, Copy, PartialEq, Eq, Debug, Structural)]
pub enum OptsKey {
    VarIdFile,
    ConfigFile,
    OutputFile,
    /// Something that is not read.
    Ignored,
}

/// One line of the options of a phenotype network.
#[derive(Clone, Debug)]
pub struct OptsEntry {
    pub key: OptsKey,
    pub name: String,
    pub value: String,
}

pub open spec fn opts_key(name: Seq<char>) -> OptsKey {
    if name == VAR_ID_FILE@ {
        OptsKey::VarIdFile
    } else if name == CONFIG_FILE@ {
        OptsKey::ConfigFile
    } else if name == OUTPUT_FILE@ {
        OptsKey::OutputFile
    } else {
        OptsKey::Ignored
    }
}

/// Whether a line holds nothing to read: white space alone, or a comment.
pub open spec fn is_blank(line: Seq<char>) -> bool {
    trimmed(line).len() == 0 || trimmed(line)[0] == '#'
}

/// Reads one line of the options of a phenotype network. An empty line and
/// a line that starts with `#` hold nothing. Any other line has to have two
/// words, a key and a value; it is refused where it has not.
pub fn parse_opts_line(line: &str) -> (outcome: Result<Option<OptsEntry>, Error>)
    ensures
        is_blank(line@) ==> outcome is Ok && outcome->Ok_0 is None,
        !is_blank(line@) && words(line@).len() == 2 ==> outcome is Ok && outcome->Ok_0 is Some
            && outcome->Ok_0->0.key == opts_key(words(line@)[0]) && outcome->Ok_0->0.name@
            == words(line@)[0] && outcome->Ok_0->0.value@ == words(line@)[1],
        !is_blank(line@) && words(line@).len() != 2 ==> outcome is Err && outcome->Err_0.kind
            == ErrorKind::Mocasa && outcome->Err_0.message@
            == "Expected key/value pair, but got '"@ + trimmed(line@) + "'."@,
{
    let content = trim(line);
    let chars = chars_of(content.as_str());
    if chars.len() == 0 || chars[0] == '#' {
        return Ok(None);
    }
    let mut parts = split(content.as_str(), Delims::Whitespace);
    if parts.len() != 2 {
        let mut message = String::from_str("Expected key/value pair, but got '");
        message.append(content.as_str());
        message.append("'.");
        return Err(Error::new(ErrorKind::Mocasa, message));
    }
    let ghost all = parts@;
    let key = if str_equal(parts[0].as_str(), VAR_ID_FILE) {
        OptsKey::VarIdFile
    } else if str_equal(parts[0].as_str(), CONFIG_FILE) {
        OptsKey::ConfigFile
    } else if str_equal(parts[0].as_str(), OUTPUT_FILE) {
        OptsKey::OutputFile
    } else {
        OptsKey::Ignored
    };
    let value = parts.remove(1);
    let name = parts.remove(0);
    proof {
        assert(views(all)[0] == all[0]@);
        assert(views(all)[1] == all[1]@);
    }
    Ok(Some(OptsEntry { key, name, value }))
}

/// The options of a phenotype network: the file of variant identifiers, the
/// files of its configuration, and the file of its output, if any.
#[derive(Clone, Debug)]
pub struct PhenetOpts {
    pub var_id_file: String,
    pub config_files: Vec<String>,
    pub output_file: Option<String>,
}

/// The options of a phenotype network while they are read.
#[derive(Clone, Debug)]
pub struct PhenetOptsBuilder {
    pub var_id_file: Option<String>,
    pub config_files: Vec<String>,
    pub output_file: Option<String>,
}

impl PhenetOptsBuilder {
    pub fn new() -> (builder: Self)
        ensures
            builder.var_id_file is None,
            builder.config_files@.len() == 0,
            builder.output_file is None,
    {
        PhenetOptsBuilder { var_id_file: None, config_files: Vec::new(), output_file: None }
    }

    /// Takes in one line: the last file of variant identifiers and the last
    /// file of output count, and each file of configuration is kept.
    pub fn add(&mut self, entry: OptsEntry)
        ensures
            final(self).var_id_file == (if entry.key == OptsKey::VarIdFile {
                Some(entry.value)
            } else {
                old(self).var_id_file
            }),
            final(self).config_files@ == (if entry.key == OptsKey::ConfigFile {
                old(self).config_files@.push(entry.value)
            } else {
                old(self).config_files@
            }),
            final(self).output_file == (if entry.key == OptsKey::OutputFile {
                Some(entry.value)
            } else {
                old(self).output_file
            }),
    {
        match entry.key {
            OptsKey::VarIdFile => {
                self.var_id_file = Some(entry.value);
            },
            OptsKey::ConfigFile => {
                self.config_files.push(entry.value);
            },
            OptsKey::OutputFile => {
                self.output_file = Some(entry.value);
            },
            OptsKey::Ignored => {},
        }
    }

    /// The options read. Where no file of variant identifiers was named, its
    /// name is empty. Refused where no file of configuration was named.
    pub fn finish(self) -> (outcome: Result<PhenetOpts, Error>)
        ensures
            self.config_files@.len() > 0 ==> outcome is Ok && outcome->Ok_0.config_files
                == self.config_files && outcome->Ok_0.output_file == self.output_file
                && outcome->Ok_0.var_id_file@ == (match self.var_id_file {
                Some(file) => file@,
                None => Seq::<char>::empty(),
            }),
            self.config_files@.len() == 0 ==> outcome is Err && outcome->Err_0.kind
                == ErrorKind::Mocasa && outcome->Err_0.message@ == "Missing option "@
                + CONFIG_FILE@,
    {
        if self.config_files.len() == 0 {
            let mut message = String::from_str("Missing option ");
            message.append(CONFIG_FILE);
            return Err(Error::new(ErrorKind::Mocasa, message));
        }
        let var_id_file = match self.var_id_file {
            Some(file) => file,
            None => String::new(),
        };
        Ok(
            PhenetOpts {
                var_id_file,
                config_files: self.config_files,
                output_file: self.output_file,
            },
        )
    }
}

} // verus!
