use vstd::prelude::*;

use crate::bytes::{copy_range, crlf_at, in_class, is_digit, Class, SP};

verus! {

/// Format control that may follow an ASCII or EBCDIC representation type.
#[derive(Clone, Copy, Debug, PartialEq, Eq, Hash, Structural)]
pub enum FormatControl {
    NonPrint,
    Telnet,
    Carriage,
}

/// Argument of the TYPE command.
#[derive(Clone, Copy, Debug, PartialEq, Eq, Hash, Structural)]
pub enum RepresentationTypeKind {
    Ascii(Option<FormatControl>),
    Ebcdic(Option<FormatControl>),
    Image,
    LocalByte(u8),
}

/// Argument of the STRU command.
#[derive(Clone, Copy, Debug, PartialEq, Eq, Hash, Structural)]
pub enum FileStructureKind {
    File,
    Record,
    Page,
}

/// Argument of the MODE command.
#[derive(Clone, Copy, Debug, PartialEq, Eq, Hash, Structural)]
pub enum TransferModeKind {
    Stream,
    Block,
    Compressed,
}

/// A control-connection command, one variant per protocol verb.
#[derive(Clone, Debug, PartialEq, Eq, Hash)]
pub enum Command {
    // Access control
    UserName(Vec<u8>),
    Password(Vec<u8>),
    Account(Vec<u8>),
    ChangeWorkingDirectory(Vec<u8>),
    ChangeToParentDirectory,
    StructureMount(Vec<u8>),
    Reinitialize,
    Logout,
    // Transfer parameters
    DataPort([u8; 4], u16),
    Passive,
    RepresentationType(RepresentationTypeKind),
    FileStructure(FileStructureKind),
    TransferMode(TransferModeKind),
    // Service commands
    Retrieve(Vec<u8>),
    Store(Vec<u8>),
    StoreUnique,
    Append(Vec<u8>),
    Allocate(i64, Option<i64>),
    Restart(Vec<u8>),
    RenameFrom(Vec<u8>),
    RenameTo(Vec<u8>),
    Abort,
    Delete(Vec<u8>),
    RemoveDirectory(Vec<u8>),
    MakeDirectory(Vec<u8>),
    PrintWorkingDirectory,
    List(Option<Vec<u8>>),
    NameList(Option<Vec<u8>>),
    SiteParameters(Vec<u8>),
    System,
    Status(Option<Vec<u8>>),
    Help(Option<Vec<u8>>),
    Noop,
}

/// The protocol verb of a command, as it is spelled on the wire.
#[derive(Clone, Copy, Debug, PartialEq, Eq, Hash, Structural)]
pub enum Verb {
    User,
    Pass,
    Acct,
    Cwd,
    Cdup,
    Smnt,
    Rein,
    Quit,
    Port,
    Pasv,
    Type,
    Stru,
    Mode,
    Retr,
    Stor,
    Stou,
    Appe,
    Allo,
    Rest,
    Rnfr,
    Rnto,
    Abor,
    Dele,
    Rmd,
    Mkd,
    Pwd,
    List,
    Nlst,
    Site,
    Syst,
    Stat,
    Help,
    Noop,
}

/// The argument grammar that follows a verb.
#[derive(Clone, Copy, Debug, PartialEq, Eq, Hash, Structural)]
pub enum Shape {
    /// No argument: the verb is followed by the line end.
    Nothing,
    /// A mandatory string of bytes other than CR and LF.
    Text,
    /// A mandatory string of printable ASCII characters.
    Marker,
    /// An optional string of bytes other than CR and LF.
    MaybeText,
    /// Four host octets and two port bytes, comma separated.
    HostPort,
    /// A representation type code.
    Type,
    /// A file structure code.
    Structure,
    /// A transfer mode code.
    Mode,
    /// A decimal size, optionally followed by `R` and a maximum record size.
    Allocate,
}

/// The upper-case keyword of each verb.
pub open spec fn keyword(v: Verb) -> Seq<u8> {
    match v {
        Verb::User => seq![0x55u8, 0x53u8, 0x45u8, 0x52u8],
        Verb::Pass => seq![0x50u8, 0x41u8, 0x53u8, 0x53u8],
        Verb::Acct => seq![0x41u8, 0x43u8, 0x43u8, 0x54u8],
        Verb::Cwd => seq![0x43u8, 0x57u8, 0x44u8],
        Verb::Cdup => seq![0x43u8, 0x44u8, 0x55u8, 0x50u8],
        Verb::Smnt => seq![0x53u8, 0x4Du8, 0x4Eu8, 0x54u8],
        Verb::Rein => seq![0x52u8, 0x45u8, 0x49u8, 0x4Eu8],
        Verb::Quit => seq![0x51u8, 0x55u8, 0x49u8, 0x54u8],
        Verb::Port => seq![0x50u8, 0x4Fu8, 0x52u8, 0x54u8],
        Verb::Pasv => seq![0x50u8, 0x41u8, 0x53u8, 0x56u8],
        Verb::Type => seq![0x54u8, 0x59u8, 0x50u8, 0x45u8],
        Verb::Stru => seq![0x53u8, 0x54u8, 0x52u8, 0x55u8],
        Verb::Mode => seq![0x4Du8, 0x4Fu8, 0x44u8, 0x45u8],
        Verb::Retr => seq![0x52u8, 0x45u8, 0x54u8, 0x52u8],
        Verb::Stor => seq![0x53u8, 0x54u8, 0x4Fu8, 0x52u8],
        Verb::Stou => seq![0x53u8, 0x54u8, 0x4Fu8, 0x55u8],
        Verb::Appe => seq![0x41u8, 0x50u8, 0x50u8, 0x45u8],
        Verb::Allo => seq![0x41u8, 0x4Cu8, 0x4Cu8, 0x4Fu8],
        Verb::Rest => seq![0x52u8, 0x45u8, 0x53u8, 0x54u8],
        Verb::Rnfr => seq![0x52u8, 0x4Eu8, 0x46u8, 0x52u8],
        Verb::Rnto => seq![0x52u8, 0x4Eu8, 0x54u8, 0x4Fu8],
        Verb::Abor => seq![0x41u8, 0x42u8, 0x4Fu8, 0x52u8],
        Verb::Dele => seq![0x44u8, 0x45u8, 0x4Cu8, 0x45u8],
        Verb::Rmd => seq![0x52u8, 0x4Du8, 0x44u8],
        Verb::Mkd => seq![0x4Du8, 0x4Bu8, 0x44u8],
        Verb::Pwd => seq![0x50u8, 0x57u8, 0x44u8],
        Verb::List => seq![0x4Cu8, 0x49u8, 0x53u8, 0x54u8],
        Verb::Nlst => seq![0x4Eu8, 0x4Cu8, 0x53u8, 0x54u8],
        Verb::Site => seq![0x53u8, 0x49u8, 0x54u8, 0x45u8],
        Verb::Syst => seq![0x53u8, 0x59u8, 0x53u8, 0x54u8],
        Verb::Stat => seq![0x53u8, 0x54u8, 0x41u8, 0x54u8],
        Verb::Help => seq![0x48u8, 0x45u8, 0x4Cu8, 0x50u8],
        Verb::Noop => seq![0x4Eu8, 0x4Fu8, 0x4Fu8, 0x50u8],
    }
}

/// The keyword of a verb as bytes.
pub fn keyword_bytes(v: Verb) -> (r: Vec<u8>)
    ensures
        r@ == keyword(v),
{
    match v {
        Verb::User => vec![0x55u8, 0x53u8, 0x45u8, 0x52u8],
        Verb::Pass => vec![0x50u8, 0x41u8, 0x53u8, 0x53u8],
        Verb::Acct => vec![0x41u8, 0x43u8, 0x43u8, 0x54u8],
        Verb::Cwd => vec![0x43u8, 0x57u8, 0x44u8],
        Verb::Cdup => vec![0x43u8, 0x44u8, 0x55u8, 0x50u8],
        Verb::Smnt => vec![0x53u8, 0x4Du8, 0x4Eu8, 0x54u8],
        Verb::Rein => vec![0x52u8, 0x45u8, 0x49u8, 0x4Eu8],
        Verb::Quit => vec![0x51u8, 0x55u8, 0x49u8, 0x54u8],
        Verb::Port => vec![0x50u8, 0x4Fu8, 0x52u8, 0x54u8],
        Verb::Pasv => vec![0x50u8, 0x41u8, 0x53u8, 0x56u8],
        Verb::Type => vec![0x54u8, 0x59u8, 0x50u8, 0x45u8],
        Verb::Stru => vec![0x53u8, 0x54u8, 0x52u8, 0x55u8],
        Verb::Mode => vec![0x4Du8, 0x4Fu8, 0x44u8, 0x45u8],
        Verb::Retr => vec![0x52u8, 0x45u8, 0x54u8, 0x52u8],
        Verb::Stor => vec![0x53u8, 0x54u8, 0x4Fu8, 0x52u8],
        Verb::Stou => vec![0x53u8, 0x54u8, 0x4Fu8, 0x55u8],
        Verb::Appe => vec![0x41u8, 0x50u8, 0x50u8, 0x45u8],
        Verb::Allo => vec![0x41u8, 0x4Cu8, 0x4Cu8, 0x4Fu8],
        Verb::Rest => vec![0x52u8, 0x45u8, 0x53u8, 0x54u8],
        Verb::Rnfr => vec![0x52u8, 0x4Eu8, 0x46u8, 0x52u8],
        Verb::Rnto => vec![0x52u8, 0x4Eu8, 0x54u8, 0x4Fu8],
        Verb::Abor => vec![0x41u8, 0x42u8, 0x4Fu8, 0x52u8],
        Verb::Dele => vec![0x44u8, 0x45u8, 0x4Cu8, 0x45u8],
        Verb::Rmd => vec![0x52u8, 0x4Du8, 0x44u8],
        Verb::Mkd => vec![0x4Du8, 0x4Bu8, 0x44u8],
        Verb::Pwd => vec![0x50u8, 0x57u8, 0x44u8],
        Verb::List => vec![0x4Cu8, 0x49u8, 0x53u8, 0x54u8],
        Verb::Nlst => vec![0x4Eu8, 0x4Cu8, 0x53u8, 0x54u8],
        Verb::Site => vec![0x53u8, 0x49u8, 0x54u8, 0x45u8],
        Verb::Syst => vec![0x53u8, 0x59u8, 0x53u8, 0x54u8],
        Verb::Stat => vec![0x53u8, 0x54u8, 0x41u8, 0x54u8],
        Verb::Help => vec![0x48u8, 0x45u8, 0x4Cu8, 0x50u8],
        Verb::Noop => vec![0x4Eu8, 0x4Fu8, 0x4Fu8, 0x50u8],
    }
}

/// The three-letter verb spelled by three upper-case bytes, if any.
pub open spec fn verb3(a: u8, b: u8, c: u8) -> Option<Verb> {
    match (a, b, c) {
        (0x43u8, 0x57u8, 0x44u8) => Some(Verb::Cwd),
        (0x52u8, 0x4Du8, 0x44u8) => Some(Verb::Rmd),
        (0x4Du8, 0x4Bu8, 0x44u8) => Some(Verb::Mkd),
        (0x50u8, 0x57u8, 0x44u8) => Some(Verb::Pwd),
        _ => None,
    }
}

/// The four-letter verb spelled by four upper-case bytes, if any.
pub open spec fn verb4(a: u8, b: u8, c: u8, d: u8) -> Option<Verb> {
    match (a, b, c, d) {
        (0x55u8, 0x53u8, 0x45u8, 0x52u8) => Some(Verb::User),
        (0x50u8, 0x41u8, 0x53u8, 0x53u8) => Some(Verb::Pass),
        (0x41u8, 0x43u8, 0x43u8, 0x54u8) => Some(Verb::Acct),
        (0x43u8, 0x44u8, 0x55u8, 0x50u8) => Some(Verb::Cdup),
        (0x53u8, 0x4Du8, 0x4Eu8, 0x54u8) => Some(Verb::Smnt),
        (0x52u8, 0x45u8, 0x49u8, 0x4Eu8) => Some(Verb::Rein),
        (0x51u8, 0x55u8, 0x49u8, 0x54u8) => Some(Verb::Quit),
        (0x50u8, 0x4Fu8, 0x52u8, 0x54u8) => Some(Verb::Port),
        (0x50u8, 0x41u8, 0x53u8, 0x56u8) => Some(Verb::Pasv),
        (0x54u8, 0x59u8, 0x50u8, 0x45u8) => Some(Verb::Type),
        (0x53u8, 0x54u8, 0x52u8, 0x55u8) => Some(Verb::Stru),
        (0x4Du8, 0x4Fu8, 0x44u8, 0x45u8) => Some(Verb::Mode),
        (0x52u8, 0x45u8, 0x54u8, 0x52u8) => Some(Verb::Retr),
        (0x53u8, 0x54u8, 0x4Fu8, 0x52u8) => Some(Verb::Stor),
        (0x53u8, 0x54u8, 0x4Fu8, 0x55u8) => Some(Verb::Stou),
        (0x41u8, 0x50u8, 0x50u8, 0x45u8) => Some(Verb::Appe),
        (0x41u8, 0x4Cu8, 0x4Cu8, 0x4Fu8) => Some(Verb::Allo),
        (0x52u8, 0x45u8, 0x53u8, 0x54u8) => Some(Verb::Rest),
        (0x52u8, 0x4Eu8, 0x46u8, 0x52u8) => Some(Verb::Rnfr),
        (0x52u8, 0x4Eu8, 0x54u8, 0x4Fu8) => Some(Verb::Rnto),
        (0x41u8, 0x42u8, 0x4Fu8, 0x52u8) => Some(Verb::Abor),
        (0x44u8, 0x45u8, 0x4Cu8, 0x45u8) => Some(Verb::Dele),
        (0x4Cu8, 0x49u8, 0x53u8, 0x54u8) => Some(Verb::List),
        (0x4Eu8, 0x4Cu8, 0x53u8, 0x54u8) => Some(Verb::Nlst),
        (0x53u8, 0x49u8, 0x54u8, 0x45u8) => Some(Verb::Site),
        (0x53u8, 0x59u8, 0x53u8, 0x54u8) => Some(Verb::Syst),
        (0x53u8, 0x54u8, 0x41u8, 0x54u8) => Some(Verb::Stat),
        (0x48u8, 0x45u8, 0x4Cu8, 0x50u8) => Some(Verb::Help),
        (0x4Eu8, 0x4Fu8, 0x4Fu8, 0x50u8) => Some(Verb::Noop),
        _ => None,
    }
}

/// Looks up a three-letter verb.
pub fn lookup_verb3(a: u8, b: u8, c: u8) -> (r: Option<Verb>)
    ensures
        r == verb3(a, b, c),
{
    match (a, b, c) {
        (0x43u8, 0x57u8, 0x44u8) => Some(Verb::Cwd),
        (0x52u8, 0x4Du8, 0x44u8) => Some(Verb::Rmd),
        (0x4Du8, 0x4Bu8, 0x44u8) => Some(Verb::Mkd),
        (0x50u8, 0x57u8, 0x44u8) => Some(Verb::Pwd),
        _ => None,
    }
}

/// Looks up a four-letter verb.
pub fn lookup_verb4(a: u8, b: u8, c: u8, d: u8) -> (r: Option<Verb>)
    ensures
        r == verb4(a, b, c, d),
{
    match (a, b, c, d) {
        (0x55u8, 0x53u8, 0x45u8, 0x52u8) => Some(Verb::User),
        (0x50u8, 0x41u8, 0x53u8, 0x53u8) => Some(Verb::Pass),
        (0x41u8, 0x43u8, 0x43u8, 0x54u8) => Some(Verb::Acct),
        (0x43u8, 0x44u8, 0x55u8, 0x50u8) => Some(Verb::Cdup),
        (0x53u8, 0x4Du8, 0x4Eu8, 0x54u8) => Some(Verb::Smnt),
        (0x52u8, 0x45u8, 0x49u8, 0x4Eu8) => Some(Verb::Rein),
        (0x51u8, 0x55u8, 0x49u8, 0x54u8) => Some(Verb::Quit),
        (0x50u8, 0x4Fu8, 0x52u8, 0x54u8) => Some(Verb::Port),
        (0x50u8, 0x41u8, 0x53u8, 0x56u8) => Some(Verb::Pasv),
        (0x54u8, 0x59u8, 0x50u8, 0x45u8) => Some(Verb::Type),
        (0x53u8, 0x54u8, 0x52u8, 0x55u8) => Some(Verb::Stru),
        (0x4Du8, 0x4Fu8, 0x44u8, 0x45u8) => Some(Verb::Mode),
        (0x52u8, 0x45u8, 0x54u8, 0x52u8) => Some(Verb::Retr),
        (0x53u8, 0x54u8, 0x4Fu8, 0x52u8) => Some(Verb::Stor),
        (0x53u8, 0x54u8, 0x4Fu8, 0x55u8) => Some(Verb::Stou),
        (0x41u8, 0x50u8, 0x50u8, 0x45u8) => Some(Verb::Appe),
        (0x41u8, 0x4Cu8, 0x4Cu8, 0x4Fu8) => Some(Verb::Allo),
        (0x52u8, 0x45u8, 0x53u8, 0x54u8) => Some(Verb::Rest),
        (0x52u8, 0x4Eu8, 0x46u8, 0x52u8) => Some(Verb::Rnfr),
        (0x52u8, 0x4Eu8, 0x54u8, 0x4Fu8) => Some(Verb::Rnto),
        (0x41u8, 0x42u8, 0x4Fu8, 0x52u8) => Some(Verb::Abor),
        (0x44u8, 0x45u8, 0x4Cu8, 0x45u8) => Some(Verb::Dele),
        (0x4Cu8, 0x49u8, 0x53u8, 0x54u8) => Some(Verb::List),
        (0x4Eu8, 0x4Cu8, 0x53u8, 0x54u8) => Some(Verb::Nlst),
        (0x53u8, 0x49u8, 0x54u8, 0x45u8) => Some(Verb::Site),
        (0x53u8, 0x59u8, 0x53u8, 0x54u8) => Some(Verb::Syst),
        (0x53u8, 0x54u8, 0x41u8, 0x54u8) => Some(Verb::Stat),
        (0x48u8, 0x45u8, 0x4Cu8, 0x50u8) => Some(Verb::Help),
        (0x4Eu8, 0x4Fu8, 0x4Fu8, 0x50u8) => Some(Verb::Noop),
        _ => None,
    }
}

/// The number of verbs.
pub const VERB_COUNT: usize = 33;

/// The place of each verb in the verb table.
pub open spec fn verb_index(v: Verb) -> nat {
    match v {
        Verb::User => 0,
        Verb::Pass => 1,
        Verb::Acct => 2,
        Verb::Cwd => 3,
        Verb::Cdup => 4,
        Verb::Smnt => 5,
        Verb::Rein => 6,
        Verb::Quit => 7,
        Verb::Port => 8,
        Verb::Pasv => 9,
        Verb::Type => 10,
        Verb::Stru => 11,
        Verb::Mode => 12,
        Verb::Retr => 13,
        Verb::Stor => 14,
        Verb::Stou => 15,
        Verb::Appe => 16,
        Verb::Allo => 17,
        Verb::Rest => 18,
        Verb::Rnfr => 19,
        Verb::Rnto => 20,
        Verb::Abor => 21,
        Verb::Dele => 22,
        Verb::Rmd => 23,
        Verb::Mkd => 24,
        Verb::Pwd => 25,
        Verb::List => 26,
        Verb::Nlst => 27,
        Verb::Site => 28,
        Verb::Syst => 29,
        Verb::Stat => 30,
        Verb::Help => 31,
        Verb::Noop => 32,
    }
}

/// The verb table, in the order of `verb_index`.
pub open spec fn verb_table() -> Seq<Verb> {
    seq![
        Verb::User,
        Verb::Pass,
        Verb::Acct,
        Verb::Cwd,
        Verb::Cdup,
        Verb::Smnt,
        Verb::Rein,
        Verb::Quit,
        Verb::Port,
        Verb::Pasv,
        Verb::Type,
        Verb::Stru,
        Verb::Mode,
        Verb::Retr,
        Verb::Stor,
        Verb::Stou,
        Verb::Appe,
        Verb::Allo,
        Verb::Rest,
        Verb::Rnfr,
        Verb::Rnto,
        Verb::Abor,
        Verb::Dele,
        Verb::Rmd,
        Verb::Mkd,
        Verb::Pwd,
        Verb::List,
        Verb::Nlst,
        Verb::Site,
        Verb::Syst,
        Verb::Stat,
        Verb::Help,
        Verb::Noop,
    ]
}

/// The verb at a place of the verb table.
pub open spec fn verb_at_index(i: nat) -> Verb {
    verb_table()[i as int]
}

/// Every verb has a place in the table.
pub proof fn lemma_verb_index(v: Verb)
    ensures
        verb_index(v) < VERB_COUNT,
        verb_at_index(verb_index(v)) == v,
{
    match v {
        Verb::User => {},
        Verb::Pass => {},
        Verb::Acct => {},
        Verb::Cwd => {},
        Verb::Cdup => {},
        Verb::Smnt => {},
        Verb::Rein => {},
        Verb::Quit => {},
        Verb::Port => {},
        Verb::Pasv => {},
        Verb::Type => {},
        Verb::Stru => {},
        Verb::Mode => {},
        Verb::Retr => {},
        Verb::Stor => {},
        Verb::Stou => {},
        Verb::Appe => {},
        Verb::Allo => {},
        Verb::Rest => {},
        Verb::Rnfr => {},
        Verb::Rnto => {},
        Verb::Abor => {},
        Verb::Dele => {},
        Verb::Rmd => {},
        Verb::Mkd => {},
        Verb::Pwd => {},
        Verb::List => {},
        Verb::Nlst => {},
        Verb::Site => {},
        Verb::Syst => {},
        Verb::Stat => {},
        Verb::Help => {},
        Verb::Noop => {},
    }
}

/// The verb at a place of the verb table.
pub fn verb_at(i: usize) -> (r: Verb)
    requires
        i < VERB_COUNT,
    ensures
        r == verb_at_index(i as nat),
{
    match i {
        0 => Verb::User,
        1 => Verb::Pass,
        2 => Verb::Acct,
        3 => Verb::Cwd,
        4 => Verb::Cdup,
        5 => Verb::Smnt,
        6 => Verb::Rein,
        7 => Verb::Quit,
        8 => Verb::Port,
        9 => Verb::Pasv,
        10 => Verb::Type,
        11 => Verb::Stru,
        12 => Verb::Mode,
        13 => Verb::Retr,
        14 => Verb::Stor,
        15 => Verb::Stou,
        16 => Verb::Appe,
        17 => Verb::Allo,
        18 => Verb::Rest,
        19 => Verb::Rnfr,
        20 => Verb::Rnto,
        21 => Verb::Abor,
        22 => Verb::Dele,
        23 => Verb::Rmd,
        24 => Verb::Mkd,
        25 => Verb::Pwd,
        26 => Verb::List,
        27 => Verb::Nlst,
        28 => Verb::Site,
        29 => Verb::Syst,
        30 => Verb::Stat,
        31 => Verb::Help,
        _ => Verb::Noop,
    }
}

/// The argument grammar of each verb.
pub open spec fn shape(v: Verb) -> Shape {
    match v {
        Verb::User => Shape::Text,
        Verb::Pass => Shape::Text,
        Verb::Acct => Shape::Text,
        Verb::Cwd => Shape::Text,
        Verb::Cdup => Shape::Nothing,
        Verb::Smnt => Shape::Text,
        Verb::Rein => Shape::Nothing,
        Verb::Quit => Shape::Nothing,
        Verb::Port => Shape::HostPort,
        Verb::Pasv => Shape::Nothing,
        Verb::Type => Shape::Type,
        Verb::Stru => Shape::Structure,
        Verb::Mode => Shape::Mode,
        Verb::Retr => Shape::Text,
        Verb::Stor => Shape::Text,
        Verb::Stou => Shape::Nothing,
        Verb::Appe => Shape::Text,
        Verb::Allo => Shape::Allocate,
        Verb::Rest => Shape::Marker,
        Verb::Rnfr => Shape::Text,
        Verb::Rnto => Shape::Text,
        Verb::Abor => Shape::Nothing,
        Verb::Dele => Shape::Text,
        Verb::Rmd => Shape::Text,
        Verb::Mkd => Shape::Text,
        Verb::Pwd => Shape::Nothing,
        Verb::List => Shape::MaybeText,
        Verb::Nlst => Shape::MaybeText,
        Verb::Site => Shape::Text,
        Verb::Syst => Shape::Nothing,
        Verb::Stat => Shape::MaybeText,
        Verb::Help => Shape::MaybeText,
        Verb::Noop => Shape::Nothing,
    }
}

/// The argument grammar of a verb.
pub fn shape_of(v: Verb) -> (r: Shape)
    ensures
        r == shape(v),
{
    match v {
        Verb::User => Shape::Text,
        Verb::Pass => Shape::Text,
        Verb::Acct => Shape::Text,
        Verb::Cwd => Shape::Text,
        Verb::Cdup => Shape::Nothing,
        Verb::Smnt => Shape::Text,
        Verb::Rein => Shape::Nothing,
        Verb::Quit => Shape::Nothing,
        Verb::Port => Shape::HostPort,
        Verb::Pasv => Shape::Nothing,
        Verb::Type => Shape::Type,
        Verb::Stru => Shape::Structure,
        Verb::Mode => Shape::Mode,
        Verb::Retr => Shape::Text,
        Verb::Stor => Shape::Text,
        Verb::Stou => Shape::Nothing,
        Verb::Appe => Shape::Text,
        Verb::Allo => Shape::Allocate,
        Verb::Rest => Shape::Marker,
        Verb::Rnfr => Shape::Text,
        Verb::Rnto => Shape::Text,
        Verb::Abor => Shape::Nothing,
        Verb::Dele => Shape::Text,
        Verb::Rmd => Shape::Text,
        Verb::Mkd => Shape::Text,
        Verb::Pwd => Shape::Nothing,
        Verb::List => Shape::MaybeText,
        Verb::Nlst => Shape::MaybeText,
        Verb::Site => Shape::Text,
        Verb::Syst => Shape::Nothing,
        Verb::Stat => Shape::MaybeText,
        Verb::Help => Shape::MaybeText,
        Verb::Noop => Shape::Nothing,
    }
}

impl View for Verb {
    type V = Verb;

    open spec fn view(&self) -> Verb {
        *self
    }
}

impl View for FormatControl {
    type V = FormatControl;

    open spec fn view(&self) -> FormatControl {
        *self
    }
}

impl View for RepresentationTypeKind {
    type V = RepresentationTypeKind;

    open spec fn view(&self) -> RepresentationTypeKind {
        *self
    }
}

impl View for FileStructureKind {
    type V = FileStructureKind;

    open spec fn view(&self) -> FileStructureKind {
        *self
    }
}

impl View for TransferModeKind {
    type V = TransferModeKind;

    open spec fn view(&self) -> TransferModeKind {
        *self
    }
}

/// What a command carries besides its verb.
pub enum ArgumentModel {
    Nothing,
    Bytes(Seq<u8>),
    MaybeBytes(Option<Seq<u8>>),
    HostPort(Seq<u8>, u16),
    Type(RepresentationTypeKind),
    Structure(FileStructureKind),
    Mode(TransferModeKind),
    Allocate(i64, Option<i64>),
}

/// A command as a verb and an argument.
pub struct CommandModel {
    pub verb: Verb,
    pub arg: ArgumentModel,
}

/// The executable counterpart of `ArgumentModel`.
#[derive(Clone, Debug, PartialEq, Eq)]
pub enum Argument {
    Nothing,
    Bytes(Vec<u8>),
    MaybeBytes(Option<Vec<u8>>),
    HostPort([u8; 4], u16),
    Type(RepresentationTypeKind),
    Structure(FileStructureKind),
    Mode(TransferModeKind),
    Allocate(i64, Option<i64>),
}

pub open spec fn maybe_bytes_view(b: Option<Vec<u8>>) -> Option<Seq<u8>> {
    match b {
        Some(v) => Some(v@),
        None => None,
    }
}

impl View for Argument {
    type V = ArgumentModel;

    open spec fn view(&self) -> ArgumentModel {
        match self {
            Argument::Nothing => ArgumentModel::Nothing,
            Argument::Bytes(b) => ArgumentModel::Bytes(b@),
            Argument::MaybeBytes(b) => ArgumentModel::MaybeBytes(maybe_bytes_view(*b)),
            Argument::HostPort(a, p) => ArgumentModel::HostPort(a@, *p),
            Argument::Type(k) => ArgumentModel::Type(*k),
            Argument::Structure(k) => ArgumentModel::Structure(*k),
            Argument::Mode(k) => ArgumentModel::Mode(*k),
            Argument::Allocate(a, b) => ArgumentModel::Allocate(*a, *b),
        }
    }
}

/// Whether an argument has the form that a grammar produces.
pub open spec fn fits_shape(s: Shape, a: ArgumentModel) -> bool {
    match s {
        Shape::Nothing => a is Nothing,
        Shape::Text => a is Bytes,
        Shape::Marker => a is Bytes,
        Shape::MaybeText => a is MaybeBytes,
        Shape::HostPort => a is HostPort,
        Shape::Type => a is Type,
        Shape::Structure => a is Structure,
        Shape::Mode => a is Mode,
        Shape::Allocate => a is Allocate,
    }
}

impl View for Command {
    type V = CommandModel;

    open spec fn view(&self) -> CommandModel {
        match self {
            Command::UserName(b) => CommandModel { verb: Verb::User, arg: ArgumentModel::Bytes(b@) },
            Command::Password(b) => CommandModel { verb: Verb::Pass, arg: ArgumentModel::Bytes(b@) },
            Command::Account(b) => CommandModel { verb: Verb::Acct, arg: ArgumentModel::Bytes(b@) },
            Command::ChangeWorkingDirectory(b) => CommandModel { verb: Verb::Cwd, arg: ArgumentModel::Bytes(b@) },
            Command::ChangeToParentDirectory => CommandModel { verb: Verb::Cdup, arg: ArgumentModel::Nothing },
            Command::StructureMount(b) => CommandModel { verb: Verb::Smnt, arg: ArgumentModel::Bytes(b@) },
            Command::Reinitialize => CommandModel { verb: Verb::Rein, arg: ArgumentModel::Nothing },
            Command::Logout => CommandModel { verb: Verb::Quit, arg: ArgumentModel::Nothing },
            Command::DataPort(a, p) => CommandModel { verb: Verb::Port, arg: ArgumentModel::HostPort(a@, *p) },
            Command::Passive => CommandModel { verb: Verb::Pasv, arg: ArgumentModel::Nothing },
            Command::RepresentationType(k) => CommandModel { verb: Verb::Type, arg: ArgumentModel::Type(*k) },
            Command::FileStructure(k) => CommandModel { verb: Verb::Stru, arg: ArgumentModel::Structure(*k) },
            Command::TransferMode(k) => CommandModel { verb: Verb::Mode, arg: ArgumentModel::Mode(*k) },
            Command::Retrieve(b) => CommandModel { verb: Verb::Retr, arg: ArgumentModel::Bytes(b@) },
            Command::Store(b) => CommandModel { verb: Verb::Stor, arg: ArgumentModel::Bytes(b@) },
            Command::StoreUnique => CommandModel { verb: Verb::Stou, arg: ArgumentModel::Nothing },
            Command::Append(b) => CommandModel { verb: Verb::Appe, arg: ArgumentModel::Bytes(b@) },
            Command::Allocate(a, b) => CommandModel { verb: Verb::Allo, arg: ArgumentModel::Allocate(*a, *b) },
            Command::Restart(b) => CommandModel { verb: Verb::Rest, arg: ArgumentModel::Bytes(b@) },
            Command::RenameFrom(b) => CommandModel { verb: Verb::Rnfr, arg: ArgumentModel::Bytes(b@) },
            Command::RenameTo(b) => CommandModel { verb: Verb::Rnto, arg: ArgumentModel::Bytes(b@) },
            Command::Abort => CommandModel { verb: Verb::Abor, arg: ArgumentModel::Nothing },
            Command::Delete(b) => CommandModel { verb: Verb::Dele, arg: ArgumentModel::Bytes(b@) },
            Command::RemoveDirectory(b) => CommandModel { verb: Verb::Rmd, arg: ArgumentModel::Bytes(b@) },
            Command::MakeDirectory(b) => CommandModel { verb: Verb::Mkd, arg: ArgumentModel::Bytes(b@) },
            Command::PrintWorkingDirectory => CommandModel { verb: Verb::Pwd, arg: ArgumentModel::Nothing },
            Command::List(b) => CommandModel { verb: Verb::List, arg: ArgumentModel::MaybeBytes(maybe_bytes_view(*b)) },
            Command::NameList(b) => CommandModel { verb: Verb::Nlst, arg: ArgumentModel::MaybeBytes(maybe_bytes_view(*b)) },
            Command::SiteParameters(b) => CommandModel { verb: Verb::Site, arg: ArgumentModel::Bytes(b@) },
            Command::System => CommandModel { verb: Verb::Syst, arg: ArgumentModel::Nothing },
            Command::Status(b) => CommandModel { verb: Verb::Stat, arg: ArgumentModel::MaybeBytes(maybe_bytes_view(*b)) },
            Command::Help(b) => CommandModel { verb: Verb::Help, arg: ArgumentModel::MaybeBytes(maybe_bytes_view(*b)) },
            Command::Noop => CommandModel { verb: Verb::Noop, arg: ArgumentModel::Nothing },
        }
    }
}

impl Command {
    /// Builds the command of a verb from an argument of the verb's shape.
    pub fn from_parts(verb: Verb, arg: Argument) -> (r: Command)
        requires
            fits_shape(shape(verb), arg@),
        ensures
            r@ == (CommandModel { verb, arg: arg@ }),
    {
        match verb {
            Verb::User => Command::UserName(arg.into_bytes()),
            Verb::Pass => Command::Password(arg.into_bytes()),
            Verb::Acct => Command::Account(arg.into_bytes()),
            Verb::Cwd => Command::ChangeWorkingDirectory(arg.into_bytes()),
            Verb::Cdup => Command::ChangeToParentDirectory,
            Verb::Smnt => Command::StructureMount(arg.into_bytes()),
            Verb::Rein => Command::Reinitialize,
            Verb::Quit => Command::Logout,
            Verb::Port => {
                let (a, p) = arg.into_host_port();
                Command::DataPort(a, p)
            },
            Verb::Pasv => Command::Passive,
            Verb::Type => Command::RepresentationType(arg.into_type()),
            Verb::Stru => Command::FileStructure(arg.into_structure()),
            Verb::Mode => Command::TransferMode(arg.into_mode()),
            Verb::Retr => Command::Retrieve(arg.into_bytes()),
            Verb::Stor => Command::Store(arg.into_bytes()),
            Verb::Stou => Command::StoreUnique,
            Verb::Appe => Command::Append(arg.into_bytes()),
            Verb::Allo => {
                let (a, b) = arg.into_allocate();
                Command::Allocate(a, b)
            },
            Verb::Rest => Command::Restart(arg.into_bytes()),
            Verb::Rnfr => Command::RenameFrom(arg.into_bytes()),
            Verb::Rnto => Command::RenameTo(arg.into_bytes()),
            Verb::Abor => Command::Abort,
            Verb::Dele => Command::Delete(arg.into_bytes()),
            Verb::Rmd => Command::RemoveDirectory(arg.into_bytes()),
            Verb::Mkd => Command::MakeDirectory(arg.into_bytes()),
            Verb::Pwd => Command::PrintWorkingDirectory,
            Verb::List => Command::List(arg.into_maybe_bytes()),
            Verb::Nlst => Command::NameList(arg.into_maybe_bytes()),
            Verb::Site => Command::SiteParameters(arg.into_bytes()),
            Verb::Syst => Command::System,
            Verb::Stat => Command::Status(arg.into_maybe_bytes()),
            Verb::Help => Command::Help(arg.into_maybe_bytes()),
            Verb::Noop => Command::Noop,
        }
    }

    /// The verb of the command and a copy of its argument.
    pub fn parts(&self) -> (r: (Verb, Argument))
        ensures
            r.0 == self@.verb,
            r.1@ == self@.arg,
    {
        match self {
            Command::UserName(b) => (Verb::User, Argument::Bytes(copy_vec(b))),
            Command::Password(b) => (Verb::Pass, Argument::Bytes(copy_vec(b))),
            Command::Account(b) => (Verb::Acct, Argument::Bytes(copy_vec(b))),
            Command::ChangeWorkingDirectory(b) => (Verb::Cwd, Argument::Bytes(copy_vec(b))),
            Command::ChangeToParentDirectory => (Verb::Cdup, Argument::Nothing),
            Command::StructureMount(b) => (Verb::Smnt, Argument::Bytes(copy_vec(b))),
            Command::Reinitialize => (Verb::Rein, Argument::Nothing),
            Command::Logout => (Verb::Quit, Argument::Nothing),
            Command::DataPort(a, p) => (Verb::Port, Argument::HostPort(*a, *p)),
            Command::Passive => (Verb::Pasv, Argument::Nothing),
            Command::RepresentationType(k) => (Verb::Type, Argument::Type(*k)),
            Command::FileStructure(k) => (Verb::Stru, Argument::Structure(*k)),
            Command::TransferMode(k) => (Verb::Mode, Argument::Mode(*k)),
            Command::Retrieve(b) => (Verb::Retr, Argument::Bytes(copy_vec(b))),
            Command::Store(b) => (Verb::Stor, Argument::Bytes(copy_vec(b))),
            Command::StoreUnique => (Verb::Stou, Argument::Nothing),
            Command::Append(b) => (Verb::Appe, Argument::Bytes(copy_vec(b))),
            Command::Allocate(a, b) => (Verb::Allo, Argument::Allocate(*a, *b)),
            Command::Restart(b) => (Verb::Rest, Argument::Bytes(copy_vec(b))),
            Command::RenameFrom(b) => (Verb::Rnfr, Argument::Bytes(copy_vec(b))),
            Command::RenameTo(b) => (Verb::Rnto, Argument::Bytes(copy_vec(b))),
            Command::Abort => (Verb::Abor, Argument::Nothing),
            Command::Delete(b) => (Verb::Dele, Argument::Bytes(copy_vec(b))),
            Command::RemoveDirectory(b) => (Verb::Rmd, Argument::Bytes(copy_vec(b))),
            Command::MakeDirectory(b) => (Verb::Mkd, Argument::Bytes(copy_vec(b))),
            Command::PrintWorkingDirectory => (Verb::Pwd, Argument::Nothing),
            Command::List(b) => (Verb::List, Argument::MaybeBytes(copy_maybe(b))),
            Command::NameList(b) => (Verb::Nlst, Argument::MaybeBytes(copy_maybe(b))),
            Command::SiteParameters(b) => (Verb::Site, Argument::Bytes(copy_vec(b))),
            Command::System => (Verb::Syst, Argument::Nothing),
            Command::Status(b) => (Verb::Stat, Argument::MaybeBytes(copy_maybe(b))),
            Command::Help(b) => (Verb::Help, Argument::MaybeBytes(copy_maybe(b))),
            Command::Noop => (Verb::Noop, Argument::Nothing),
        }
    }
}

impl Argument {
    pub fn into_bytes(self) -> (r: Vec<u8>)
        requires
            self is Bytes,
        ensures
            self@ == ArgumentModel::Bytes(r@),
    {
        match self {
            Argument::Bytes(b) => b,
            _ => Vec::new(),
        }
    }

    pub fn into_maybe_bytes(self) -> (r: Option<Vec<u8>>)
        requires
            self is MaybeBytes,
        ensures
            self@ == ArgumentModel::MaybeBytes(maybe_bytes_view(r)),
    {
        match self {
            Argument::MaybeBytes(b) => b,
            _ => None,
        }
    }

    pub fn into_host_port(self) -> (r: ([u8; 4], u16))
        requires
            self is HostPort,
        ensures
            self@ == ArgumentModel::HostPort(r.0@, r.1),
    {
        match self {
            Argument::HostPort(a, p) => (a, p),
            _ => ([0, 0, 0, 0], 0),
        }
    }

    pub fn into_type(self) -> (r: RepresentationTypeKind)
        requires
            self is Type,
        ensures
            self@ == ArgumentModel::Type(r),
    {
        match self {
            Argument::Type(k) => k,
            _ => RepresentationTypeKind::Image,
        }
    }

    pub fn into_structure(self) -> (r: FileStructureKind)
        requires
            self is Structure,
        ensures
            self@ == ArgumentModel::Structure(r),
    {
        match self {
            Argument::Structure(k) => k,
            _ => FileStructureKind::File,
        }
    }

    pub fn into_mode(self) -> (r: TransferModeKind)
        requires
            self is Mode,
        ensures
            self@ == ArgumentModel::Mode(r),
    {
        match self {
            Argument::Mode(k) => k,
            _ => TransferModeKind::Stream,
        }
    }

    pub fn into_allocate(self) -> (r: (i64, Option<i64>))
        requires
            self is Allocate,
        ensures
            self@ == ArgumentModel::Allocate(r.0, r.1),
    {
        match self {
            Argument::Allocate(a, b) => (a, b),
            _ => (0, None),
        }
    }
}

/// A copy of a byte vector.
pub fn copy_vec(b: &Vec<u8>) -> (r: Vec<u8>)
    ensures
        r@ == b@,
{
    let r = copy_range(b.as_slice(), 0, b.len());
    assert(b@.subrange(0, b@.len() as int) == b@);
    r
}

/// A copy of a byte slice.
pub fn copy_range_of(b: &[u8]) -> (r: Vec<u8>)
    ensures
        r@ == b@,
{
    let r = copy_range(b, 0, b.len());
    assert(b@.subrange(0, b@.len() as int) == b@);
    r
}

pub fn copy_maybe(b: &Option<Vec<u8>>) -> (r: Option<Vec<u8>>)
    ensures
        maybe_bytes_view(r) == maybe_bytes_view(*b),
{
    match b {
        Some(v) => Some(copy_vec(v)),
        None => None,
    }
}

/// A reply: a three-digit status code and its text.
#[derive(Clone, Debug, PartialEq, Eq, Hash)]
pub struct Reply {
    pub code: [u8; 3],
    pub text: Text,
}

/// The text of a reply, on one line or on several.
#[derive(Clone, Debug, PartialEq, Eq, Hash)]
pub enum Text {
    SingleLine { line: Vec<u8> },
    MultiLine { lines: Vec<Vec<u8>>, last_line: Vec<u8> },
}

pub enum TextModel {
    SingleLine(Seq<u8>),
    MultiLine(Seq<Seq<u8>>, Seq<u8>),
}

pub struct ReplyModel {
    pub code: Seq<u8>,
    pub text: TextModel,
}

pub open spec fn lines_view(lines: Seq<Vec<u8>>) -> Seq<Seq<u8>> {
    lines.map_values(|l: Vec<u8>| l@)
}

impl View for Text {
    type V = TextModel;

    open spec fn view(&self) -> TextModel {
        match self {
            Text::SingleLine { line } => TextModel::SingleLine(line@),
            Text::MultiLine { lines, last_line } => TextModel::MultiLine(
                lines_view(lines@),
                last_line@,
            ),
        }
    }
}

impl View for Reply {
    type V = ReplyModel;

    open spec fn view(&self) -> ReplyModel {
        ReplyModel { code: self.code@, text: self.text@ }
    }
}

/// One or more bytes, none of them CR or LF.
pub open spec fn is_text(b: Seq<u8>) -> bool {
    b.len() >= 1 && forall|i: int| 0 <= i < b.len() ==> in_class(#[trigger] b[i], Class::Line)
}

/// One or more printable ASCII characters.
pub open spec fn is_marker(b: Seq<u8>) -> bool {
    b.len() >= 1 && forall|i: int| 0 <= i < b.len() ==> in_class(#[trigger] b[i], Class::Printable)
}

/// Bytes that fit on one reply line: no CR LF pair among them.
pub open spec fn is_line(b: Seq<u8>) -> bool {
    forall|i: int| 0 <= i < b.len() - 1 ==> !#[trigger] crlf_at(b, i)
}

/// Whether an argument can be written in the grammar of a shape.
pub open spec fn argument_wf(s: Shape, a: ArgumentModel) -> bool {
    &&& fits_shape(s, a)
    &&& match a {
        ArgumentModel::Bytes(b) => if s == Shape::Marker {
            is_marker(b)
        } else {
            is_text(b)
        },
        ArgumentModel::MaybeBytes(Some(b)) => is_text(b),
        ArgumentModel::HostPort(o, _) => o.len() == 4,
        _ => true,
    }
}

/// Whether a command can be written on the wire and read back.
pub open spec fn command_wf(c: CommandModel) -> bool {
    argument_wf(shape(c.verb), c.arg)
}

/// Whether a line, at the start of a reply line, reads as the closing line
/// of a multi-line reply with this code.
pub open spec fn closes(code: Seq<u8>, line: Seq<u8>) -> bool {
    line.len() >= 4 && line.take(4) == code.push(SP)
}

/// Three ASCII digits.
pub open spec fn is_code(code: Seq<u8>) -> bool {
    code.len() == 3 && forall|i: int| 0 <= i < 3 ==> is_digit(#[trigger] code[i])
}

/// Whether a reply can be written on the wire and read back.
pub open spec fn reply_wf(r: ReplyModel) -> bool {
    &&& is_code(r.code)
    &&& match r.text {
        TextModel::SingleLine(l) => is_line(l),
        TextModel::MultiLine(lines, last) => {
            &&& lines.len() >= 1
            &&& forall|i: int| 0 <= i < lines.len() ==> is_line(#[trigger] lines[i])
            &&& forall|i: int| 1 <= i < lines.len() ==> !closes(r.code, #[trigger] lines[i])
            &&& is_line(last)
        },
    }
}

} // verus!
