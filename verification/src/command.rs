//! The typed command model: the authoritative mapping between wire
//! identifiers with their argument lists and typed command variants, in both
//! directions, with strict arity and per-position type validation.
//!
//! The schema is captured by the spec functions [`known_ident`],
//! [`arity_ok`] and [`wire_to_command`]; the executable constructor
//! [`ClientCommand::from_wire`] is verified against them, and
//! [`ClientCommand::to_wire`] against [`command_to_wire`].

use vstd::prelude::*;

use crate::text::{
    bool_to_string, parse_bool, parse_u32, spec_bool_string, spec_parse_bool, spec_parse_u32,
    spec_u32_string, str_eq, u32_to_string,
};

verus! {

/// Six independent willingness flags exchanged in case negotiation,
/// each written on the wire as `"1"` or `"0"`.
#[derive(Debug, Clone, Copy, PartialEq, Eq, Structural)]
pub struct CasePreferences {
    pub cm: bool,
    pub def: bool,
    pub pro: bool,
    pub judge: bool,
    pub jury: bool,
    pub steno: bool,
}

/// The three text fields describing one piece of evidence.
#[derive(Debug)]
pub struct EvidenceArgs {
    pub name: String,
    pub description: String,
    pub image: String,
}

/// Mathematical image of [`EvidenceArgs`].
pub struct EvidenceArgsV {
    pub name: Seq<char>,
    pub description: Seq<char>,
    pub image: Seq<char>,
}

impl View for EvidenceArgs {
    type V = EvidenceArgsV;

    open spec fn view(&self) -> EvidenceArgsV {
        EvidenceArgsV { name: self.name@, description: self.description@, image: self.image@ }
    }
}

/// Every message a client can send, one variant per schema entry.
#[derive(Debug)]
pub enum ClientCommand {
    /// `HI#<hdid>#%`
    Handshake(String),
    /// `ID#<pv>#<software>#<version>#%`
    ClientVersion(u32, String, String),
    /// `CH#%`
    KeepAlive,
    /// `askchaa#%`
    AskListLengths,
    /// `askchar#%`
    AskListCharacters,
    /// `AN#<page>#%`
    CharacterList(u32),
    /// `AE#<page>#%`
    EvidenceList(u32),
    /// `AM#<page>#%`
    MusicList(u32),
    /// `AC#%`
    AO2CharacterList,
    /// `AM#%`
    AO2MusicList,
    /// `RD#%`
    AO2Ready,
    /// `CC#<client_id>#<char_id>#<hdid>#%`
    SelectCharacter(u32, u32, String),
    /// `MS#%`
    ICMessage,
    /// `CT#<name>#<message>#%`
    OOCMessage(String, String),
    /// `MC#<song_index>#<arg>#%`
    PlaySong(u32, u32),
    /// `RT#<kind>#%`
    WTCEButtons(String),
    /// `SETCASE#<cases>#<six booleans>#%`
    SetCasePreferences(String, CasePreferences),
    /// `CASEA#<cases>#<six booleans>#%`
    CaseAnnounce(String, CasePreferences),
    /// `HP#<kind>#<value>#%`
    Penalties(u32, u32),
    /// `PE#<name>#<description>#<image>#%`
    AddEvidence(EvidenceArgs),
    /// `DE#<id>#%`
    DeleteEvidence(u32),
    /// `EE#<id>#<name>#<description>#<image>#%`
    EditEvidence(u32, EvidenceArgs),
    /// `ZZ#%` or `ZZ#<reason>#%`
    CallModButton(Option<String>),
}

/// Mathematical image of [`ClientCommand`].
pub enum ClientCommandV {
    Handshake(Seq<char>),
    ClientVersion(u32, Seq<char>, Seq<char>),
    KeepAlive,
    AskListLengths,
    AskListCharacters,
    CharacterList(u32),
    EvidenceList(u32),
    MusicList(u32),
    AO2CharacterList,
    AO2MusicList,
    AO2Ready,
    SelectCharacter(u32, u32, Seq<char>),
    ICMessage,
    OOCMessage(Seq<char>, Seq<char>),
    PlaySong(u32, u32),
    WTCEButtons(Seq<char>),
    SetCasePreferences(Seq<char>, CasePreferences),
    CaseAnnounce(Seq<char>, CasePreferences),
    Penalties(u32, u32),
    AddEvidence(EvidenceArgsV),
    DeleteEvidence(u32),
    EditEvidence(u32, EvidenceArgsV),
    CallModButton(Option<Seq<char>>),
}

impl View for ClientCommand {
    type V = ClientCommandV;

    open spec fn view(&self) -> ClientCommandV {
        match self {
            ClientCommand::Handshake(h) => ClientCommandV::Handshake(h@),
            ClientCommand::ClientVersion(pv, sw, ver) => ClientCommandV::ClientVersion(
                *pv,
                sw@,
                ver@,
            ),
            ClientCommand::KeepAlive => ClientCommandV::KeepAlive,
            ClientCommand::AskListLengths => ClientCommandV::AskListLengths,
            ClientCommand::AskListCharacters => ClientCommandV::AskListCharacters,
            ClientCommand::CharacterList(p) => ClientCommandV::CharacterList(*p),
            ClientCommand::EvidenceList(p) => ClientCommandV::EvidenceList(*p),
            ClientCommand::MusicList(p) => ClientCommandV::MusicList(*p),
            ClientCommand::AO2CharacterList => ClientCommandV::AO2CharacterList,
            ClientCommand::AO2MusicList => ClientCommandV::AO2MusicList,
            ClientCommand::AO2Ready => ClientCommandV::AO2Ready,
            ClientCommand::SelectCharacter(cl, ch, h) => ClientCommandV::SelectCharacter(
                *cl,
                *ch,
                h@,
            ),
            ClientCommand::ICMessage => ClientCommandV::ICMessage,
            ClientCommand::OOCMessage(n, m) => ClientCommandV::OOCMessage(n@, m@),
            ClientCommand::PlaySong(s, a) => ClientCommandV::PlaySong(*s, *a),
            ClientCommand::WTCEButtons(k) => ClientCommandV::WTCEButtons(k@),
            ClientCommand::SetCasePreferences(c, p) => ClientCommandV::SetCasePreferences(c@, *p),
            ClientCommand::CaseAnnounce(c, p) => ClientCommandV::CaseAnnounce(c@, *p),
            ClientCommand::Penalties(k, v) => ClientCommandV::Penalties(*k, *v),
            ClientCommand::AddEvidence(e) => ClientCommandV::AddEvidence(e@),
            ClientCommand::DeleteEvidence(i) => ClientCommandV::DeleteEvidence(*i),
            ClientCommand::EditEvidence(i, e) => ClientCommandV::EditEvidence(*i, e@),
            ClientCommand::CallModButton(r) => ClientCommandV::CallModButton(
                match r {
                    Some(s) => Some(s@),
                    None => None,
                },
            ),
        }
    }
}

/// Every message the server originates.
#[derive(Debug)]
pub enum ServerCommand {
    /// `HI#<session_id>#%`
    Handshake(String),
}

/// Mathematical image of [`ServerCommand`].
pub enum ServerCommandV {
    Handshake(Seq<char>),
}

impl View for ServerCommand {
    type V = ServerCommandV;

    open spec fn view(&self) -> ServerCommandV {
        match self {
            ServerCommand::Handshake(s) => ServerCommandV::Handshake(s@),
        }
    }
}

/// Why schema validation rejected a frame.
#[derive(Debug)]
pub enum CommandError {
    /// The identifier is not in the schema table.
    UnknownCommand { ident: String },
    /// The argument count does not match the schema entry exactly.
    ArityMismatch { ident: String, expected: usize, got: usize },
    /// A positional value does not parse as its declared primitive type.
    TypeMismatch { ident: String, position: usize, value: String },
}

/// Mathematical image of [`CommandError`].
pub enum CommandErrorV {
    UnknownCommand { ident: Seq<char> },
    ArityMismatch { ident: Seq<char>, expected: nat, got: nat },
    TypeMismatch { ident: Seq<char>, position: nat, value: Seq<char> },
}

impl View for CommandError {
    type V = CommandErrorV;

    open spec fn view(&self) -> CommandErrorV {
        match self {
            CommandError::UnknownCommand { ident } => CommandErrorV::UnknownCommand {
                ident: ident@,
            },
            CommandError::ArityMismatch { ident, expected, got } => CommandErrorV::ArityMismatch {
                ident: ident@,
                expected: *expected as nat,
                got: *got as nat,
            },
            CommandError::TypeMismatch { ident, position, value } => CommandErrorV::TypeMismatch {
                ident: ident@,
                position: *position as nat,
                value: value@,
            },
        }
    }
}

/// Whether the identifier appears in the schema table.
pub open spec fn known_ident(id: Seq<char>) -> bool {
    ||| id == "HI"@
    ||| id == "ID"@
    ||| id == "CH"@
    ||| id == "askchaa"@
    ||| id == "askchar"@
    ||| id == "AN"@
    ||| id == "AE"@
    ||| id == "AM"@
    ||| id == "AC"@
    ||| id == "RD"@
    ||| id == "CC"@
    ||| id == "MS"@
    ||| id == "CT"@
    ||| id == "MC"@
    ||| id == "RT"@
    ||| id == "SETCASE"@
    ||| id == "CASEA"@
    ||| id == "HP"@
    ||| id == "PE"@
    ||| id == "DE"@
    ||| id == "EE"@
    ||| id == "ZZ"@
}

/// The argument count a schema entry declares. `AM` and `ZZ` admit a second
/// count (see [`arity_ok`]); this is the count named in an arity error.
pub open spec fn primary_arity(id: Seq<char>) -> nat {
    if id == "HI"@ {
        1
    } else if id == "ID"@ {
        3
    } else if id == "CH"@ {
        0
    } else if id == "askchaa"@ {
        0
    } else if id == "askchar"@ {
        0
    } else if id == "AN"@ {
        1
    } else if id == "AE"@ {
        1
    } else if id == "AM"@ {
        1
    } else if id == "AC"@ {
        0
    } else if id == "RD"@ {
        0
    } else if id == "CC"@ {
        3
    } else if id == "MS"@ {
        0
    } else if id == "CT"@ {
        2
    } else if id == "MC"@ {
        2
    } else if id == "RT"@ {
        1
    } else if id == "SETCASE"@ {
        7
    } else if id == "CASEA"@ {
        7
    } else if id == "HP"@ {
        2
    } else if id == "PE"@ {
        3
    } else if id == "DE"@ {
        1
    } else if id == "EE"@ {
        4
    } else if id == "ZZ"@ {
        1
    } else {
        0
    }
}

/// Whether a schema entry accepts `n` arguments. `AM` with a page argument
/// is a music-list request and without one an AO2 music-list request; `ZZ`
/// takes an optional reason.
pub open spec fn arity_ok(id: Seq<char>, n: nat) -> bool {
    if id == "AM"@ || id == "ZZ"@ {
        n == primary_arity(id) || n == 0
    } else {
        n == primary_arity(id)
    }
}

/// Result of parsing the six boolean preference fields that start at
/// argument position `base`: the preferences, or the first offending
/// position.
pub open spec fn spec_prefs_at(args: Seq<Seq<char>>, base: int) -> Result<CasePreferences, int>
    recommends
        0 <= base,
        base + 6 <= args.len(),
{
    if spec_parse_bool(args[base]) is None {
        Err(base)
    } else if spec_parse_bool(args[base + 1]) is None {
        Err(base + 1)
    } else if spec_parse_bool(args[base + 2]) is None {
        Err(base + 2)
    } else if spec_parse_bool(args[base + 3]) is None {
        Err(base + 3)
    } else if spec_parse_bool(args[base + 4]) is None {
        Err(base + 4)
    } else if spec_parse_bool(args[base + 5]) is None {
        Err(base + 5)
    } else {
        Ok(
            CasePreferences {
                cm: spec_parse_bool(args[base])->0,
                def: spec_parse_bool(args[base + 1])->0,
                pro: spec_parse_bool(args[base + 2])->0,
                judge: spec_parse_bool(args[base + 3])->0,
                jury: spec_parse_bool(args[base + 4])->0,
                steno: spec_parse_bool(args[base + 5])->0,
            },
        )
    }
}

pub open spec fn type_mismatch(id: Seq<char>, pos: int, value: Seq<char>) -> CommandErrorV {
    CommandErrorV::TypeMismatch { ident: id, position: pos as nat, value }
}

/// Positional construction of the variant for a known identifier whose
/// arity already matched.
pub open spec fn build_command(id: Seq<char>, args: Seq<Seq<char>>) -> Result<
    ClientCommandV,
    CommandErrorV,
>
    recommends
        known_ident(id),
        arity_ok(id, args.len() as nat),
{
    if id == "HI"@ {
        Ok(ClientCommandV::Handshake(args[0]))
    } else if id == "ID"@ {
        match spec_parse_u32(args[0]) {
            Some(pv) => Ok(ClientCommandV::ClientVersion(pv, args[1], args[2])),
            None => Err(type_mismatch(id, 0, args[0])),
        }
    } else if id == "CH"@ {
        Ok(ClientCommandV::KeepAlive)
    } else if id == "askchaa"@ {
        Ok(ClientCommandV::AskListLengths)
    } else if id == "askchar"@ {
        Ok(ClientCommandV::AskListCharacters)
    } else if id == "AN"@ {
        match spec_parse_u32(args[0]) {
            Some(p) => Ok(ClientCommandV::CharacterList(p)),
            None => Err(type_mismatch(id, 0, args[0])),
        }
    } else if id == "AE"@ {
        match spec_parse_u32(args[0]) {
            Some(p) => Ok(ClientCommandV::EvidenceList(p)),
            None => Err(type_mismatch(id, 0, args[0])),
        }
    } else if id == "AM"@ {
        if args.len() == 0 {
            Ok(ClientCommandV::AO2MusicList)
        } else {
            match spec_parse_u32(args[0]) {
                Some(p) => Ok(ClientCommandV::MusicList(p)),
                None => Err(type_mismatch(id, 0, args[0])),
            }
        }
    } else if id == "AC"@ {
        Ok(ClientCommandV::AO2CharacterList)
    } else if id == "RD"@ {
        Ok(ClientCommandV::AO2Ready)
    } else if id == "CC"@ {
        match spec_parse_u32(args[0]) {
            Some(cl) => match spec_parse_u32(args[1]) {
                Some(ch) => Ok(ClientCommandV::SelectCharacter(cl, ch, args[2])),
                None => Err(type_mismatch(id, 1, args[1])),
            },
            None => Err(type_mismatch(id, 0, args[0])),
        }
    } else if id == "MS"@ {
        Ok(ClientCommandV::ICMessage)
    } else if id == "CT"@ {
        Ok(ClientCommandV::OOCMessage(args[0], args[1]))
    } else if id == "MC"@ {
        match spec_parse_u32(args[0]) {
            Some(s) => match spec_parse_u32(args[1]) {
                Some(a) => Ok(ClientCommandV::PlaySong(s, a)),
                None => Err(type_mismatch(id, 1, args[1])),
            },
            None => Err(type_mismatch(id, 0, args[0])),
        }
    } else if id == "RT"@ {
        Ok(ClientCommandV::WTCEButtons(args[0]))
    } else if id == "SETCASE"@ {
        match spec_prefs_at(args, 1) {
            Ok(p) => Ok(ClientCommandV::SetCasePreferences(args[0], p)),
            Err(pos) => Err(type_mismatch(id, pos, args[pos])),
        }
    } else if id == "CASEA"@ {
        match spec_prefs_at(args, 1) {
            Ok(p) => Ok(ClientCommandV::CaseAnnounce(args[0], p)),
            Err(pos) => Err(type_mismatch(id, pos, args[pos])),
        }
    } else if id == "HP"@ {
        match spec_parse_u32(args[0]) {
            Some(k) => match spec_parse_u32(args[1]) {
                Some(v) => Ok(ClientCommandV::Penalties(k, v)),
                None => Err(type_mismatch(id, 1, args[1])),
            },
            None => Err(type_mismatch(id, 0, args[0])),
        }
    } else if id == "PE"@ {
        Ok(
            ClientCommandV::AddEvidence(
                EvidenceArgsV { name: args[0], description: args[1], image: args[2] },
            ),
        )
    } else if id == "DE"@ {
        match spec_parse_u32(args[0]) {
            Some(i) => Ok(ClientCommandV::DeleteEvidence(i)),
            None => Err(type_mismatch(id, 0, args[0])),
        }
    } else if id == "EE"@ {
        match spec_parse_u32(args[0]) {
            Some(i) => Ok(
                ClientCommandV::EditEvidence(
                    i,
                    EvidenceArgsV { name: args[1], description: args[2], image: args[3] },
                ),
            ),
            None => Err(type_mismatch(id, 0, args[0])),
        }
    } else {
        if args.len() == 0 {
            Ok(ClientCommandV::CallModButton(None))
        } else {
            Ok(ClientCommandV::CallModButton(Some(args[0])))
        }
    }
}

/// The schema-driven constructor: validation happens in this order —
/// unknown identifier, then arity, then per-position types.
pub open spec fn wire_to_command(id: Seq<char>, args: Seq<Seq<char>>) -> Result<
    ClientCommandV,
    CommandErrorV,
> {
    if !known_ident(id) {
        Err(CommandErrorV::UnknownCommand { ident: id })
    } else if !arity_ok(id, args.len() as nat) {
        Err(
            CommandErrorV::ArityMismatch {
                ident: id,
                expected: primary_arity(id),
                got: args.len() as nat,
            },
        )
    } else {
        build_command(id, args)
    }
}

/// Spells out the length and characters of every identifier in the schema
/// table, so that distinct identifiers can be told apart.
pub proof fn lemma_ident_chars()
    ensures
        "HI"@.len() == 2 && "HI"@[0] == 'H' && "HI"@[1] == 'I',
        "ID"@.len() == 2 && "ID"@[0] == 'I' && "ID"@[1] == 'D',
        "CH"@.len() == 2 && "CH"@[0] == 'C' && "CH"@[1] == 'H',
        "askchaa"@.len() == 7 && "askchaa"@[0] == 'a' && "askchaa"@[1] == 's' && "askchaa"@[2]
            == 'k' && "askchaa"@[3] == 'c' && "askchaa"@[4] == 'h' && "askchaa"@[5] == 'a'
            && "askchaa"@[6] == 'a',
        "askchar"@.len() == 7 && "askchar"@[0] == 'a' && "askchar"@[1] == 's' && "askchar"@[2]
            == 'k' && "askchar"@[3] == 'c' && "askchar"@[4] == 'h' && "askchar"@[5] == 'a'
            && "askchar"@[6] == 'r',
        "AN"@.len() == 2 && "AN"@[0] == 'A' && "AN"@[1] == 'N',
        "AE"@.len() == 2 && "AE"@[0] == 'A' && "AE"@[1] == 'E',
        "AM"@.len() == 2 && "AM"@[0] == 'A' && "AM"@[1] == 'M',
        "AC"@.len() == 2 && "AC"@[0] == 'A' && "AC"@[1] == 'C',
        "RD"@.len() == 2 && "RD"@[0] == 'R' && "RD"@[1] == 'D',
        "CC"@.len() == 2 && "CC"@[0] == 'C' && "CC"@[1] == 'C',
        "MS"@.len() == 2 && "MS"@[0] == 'M' && "MS"@[1] == 'S',
        "CT"@.len() == 2 && "CT"@[0] == 'C' && "CT"@[1] == 'T',
        "MC"@.len() == 2 && "MC"@[0] == 'M' && "MC"@[1] == 'C',
        "RT"@.len() == 2 && "RT"@[0] == 'R' && "RT"@[1] == 'T',
        "SETCASE"@.len() == 7 && "SETCASE"@[0] == 'S' && "SETCASE"@[1] == 'E' && "SETCASE"@[2]
            == 'T' && "SETCASE"@[3] == 'C' && "SETCASE"@[4] == 'A' && "SETCASE"@[5] == 'S'
            && "SETCASE"@[6] == 'E',
        "CASEA"@.len() == 5 && "CASEA"@[0] == 'C' && "CASEA"@[1] == 'A' && "CASEA"@[2] == 'S'
            && "CASEA"@[3] == 'E' && "CASEA"@[4] == 'A',
        "HP"@.len() == 2 && "HP"@[0] == 'H' && "HP"@[1] == 'P',
        "PE"@.len() == 2 && "PE"@[0] == 'P' && "PE"@[1] == 'E',
        "DE"@.len() == 2 && "DE"@[0] == 'D' && "DE"@[1] == 'E',
        "EE"@.len() == 2 && "EE"@[0] == 'E' && "EE"@[1] == 'E',
        "ZZ"@.len() == 2 && "ZZ"@[0] == 'Z' && "ZZ"@[1] == 'Z',
{
    reveal_strlit("HI");
    reveal_strlit("ID");
    reveal_strlit("CH");
    reveal_strlit("askchaa");
    reveal_strlit("askchar");
    reveal_strlit("AN");
    reveal_strlit("AE");
    reveal_strlit("AM");
    reveal_strlit("AC");
    reveal_strlit("RD");
    reveal_strlit("CC");
    reveal_strlit("MS");
    reveal_strlit("CT");
    reveal_strlit("MC");
    reveal_strlit("RT");
    reveal_strlit("SETCASE");
    reveal_strlit("CASEA");
    reveal_strlit("HP");
    reveal_strlit("PE");
    reveal_strlit("DE");
    reveal_strlit("EE");
    reveal_strlit("ZZ");
}

fn arity_err(id: &str, expected: usize, got: usize) -> (e: CommandError)
    ensures
        e@ == (CommandErrorV::ArityMismatch {
            ident: id@,
            expected: expected as nat,
            got: got as nat,
        }),
{
    CommandError::ArityMismatch { ident: id.to_owned(), expected, got }
}

/// Parses the argument at `pos` as an unsigned integer, or reports a type
/// mismatch naming the identifier, the position and the raw value.
fn get_u32_arg(id: &str, args: &Vec<String>, pos: usize) -> (r: Result<u32, CommandError>)
    requires
        pos < args@.len(),
    ensures
        ({
            let a = args.deep_view()[pos as int];
            match r {
                Ok(v) => spec_parse_u32(a) == Some(v),
                Err(e) => spec_parse_u32(a) is None && e@ == type_mismatch(id@, pos as int, a),
            }
        }),
{
    match parse_u32(args[pos].as_str()) {
        Some(v) => Ok(v),
        None => Err(
            CommandError::TypeMismatch {
                ident: id.to_owned(),
                position: pos,
                value: args[pos].clone(),
            },
        ),
    }
}

/// Parses the six boolean preference fields starting at `base`, or reports
/// a type mismatch at the first offending position.
fn get_prefs(id: &str, args: &Vec<String>, base: usize) -> (r: Result<
    CasePreferences,
    CommandError,
>)
    requires
        base + 6 <= args@.len(),
    ensures
        ({
            let spec = spec_prefs_at(args.deep_view(), base as int);
            match r {
                Ok(p) => spec == Ok::<CasePreferences, int>(p),
                Err(e) => spec is Err && e@ == type_mismatch(
                    id@,
                    spec->Err_0,
                    args.deep_view()[spec->Err_0],
                ),
            }
        }),
{
    let ln = args.len();
    let b0 = match parse_bool(args[base].as_str()) {
        Some(b) => b,
        None => {
            return Err(
                CommandError::TypeMismatch {
                    ident: id.to_owned(),
                    position: base,
                    value: args[base].clone(),
                },
            );
        },
    };
    let b1 = match parse_bool(args[base + 1].as_str()) {
        Some(b) => b,
        None => {
            return Err(
                CommandError::TypeMismatch {
                    ident: id.to_owned(),
                    position: base + 1,
                    value: args[base + 1].clone(),
                },
            );
        },
    };
    let b2 = match parse_bool(args[base + 2].as_str()) {
        Some(b) => b,
        None => {
            return Err(
                CommandError::TypeMismatch {
                    ident: id.to_owned(),
                    position: base + 2,
                    value: args[base + 2].clone(),
                },
            );
        },
    };
    let b3 = match parse_bool(args[base + 3].as_str()) {
        Some(b) => b,
        None => {
            return Err(
                CommandError::TypeMismatch {
                    ident: id.to_owned(),
                    position: base + 3,
                    value: args[base + 3].clone(),
                },
            );
        },
    };
    let b4 = match parse_bool(args[base + 4].as_str()) {
        Some(b) => b,
        None => {
            return Err(
                CommandError::TypeMismatch {
                    ident: id.to_owned(),
                    position: base + 4,
                    value: args[base + 4].clone(),
                },
            );
        },
    };
    let b5 = match parse_bool(args[base + 5].as_str()) {
        Some(b) => b,
        None => {
            return Err(
                CommandError::TypeMismatch {
                    ident: id.to_owned(),
                    position: base + 5,
                    value: args[base + 5].clone(),
                },
            );
        },
    };
    Ok(CasePreferences { cm: b0, def: b1, pro: b2, judge: b3, jury: b4, steno: b5 })
}

impl ClientCommand {
    /// Looks the identifier up in the schema table and builds the matching
    /// variant, validating arity and every positional type exactly.
    pub fn from_wire(ident: &str, args: &Vec<String>) -> (r: Result<ClientCommand, CommandError>)
        ensures
            ({
                let spec = wire_to_command(ident@, args.deep_view());
                match r {
                    Ok(c) => spec == Ok::<ClientCommandV, CommandErrorV>(c@),
                    Err(e) => spec == Err::<ClientCommandV, CommandErrorV>(e@),
                }
            }),
    {
        proof {
            lemma_ident_chars();
        }
        let n = args.len();
        if str_eq(ident, "HI") {
            if n != 1 {
                return Err(arity_err(ident, 1, n));
            }
            Ok(ClientCommand::Handshake(args[0].clone()))
        } else if str_eq(ident, "ID") {
            if n != 3 {
                return Err(arity_err(ident, 3, n));
            }
            let pv = match get_u32_arg(ident, args, 0) {
                Ok(v) => v,
                Err(e) => {
                    return Err(e);
                },
            };
            Ok(ClientCommand::ClientVersion(pv, args[1].clone(), args[2].clone()))
        } else if str_eq(ident, "CH") {
            if n != 0 {
                return Err(arity_err(ident, 0, n));
            }
            Ok(ClientCommand::KeepAlive)
        } else if str_eq(ident, "askchaa") {
            if n != 0 {
                return Err(arity_err(ident, 0, n));
            }
            Ok(ClientCommand::AskListLengths)
        } else if str_eq(ident, "askchar") {
            if n != 0 {
                return Err(arity_err(ident, 0, n));
            }
            Ok(ClientCommand::AskListCharacters)
        } else if str_eq(ident, "AN") {
            if n != 1 {
                return Err(arity_err(ident, 1, n));
            }
            match get_u32_arg(ident, args, 0) {
                Ok(p) => Ok(ClientCommand::CharacterList(p)),
                Err(e) => Err(e),
            }
        } else if str_eq(ident, "AE") {
            if n != 1 {
                return Err(arity_err(ident, 1, n));
            }
            match get_u32_arg(ident, args, 0) {
                Ok(p) => Ok(ClientCommand::EvidenceList(p)),
                Err(e) => Err(e),
            }
        } else if str_eq(ident, "AM") {
            if n == 0 {
                return Ok(ClientCommand::AO2MusicList);
            }
            if n != 1 {
                return Err(arity_err(ident, 1, n));
            }
            match get_u32_arg(ident, args, 0) {
                Ok(p) => Ok(ClientCommand::MusicList(p)),
                Err(e) => Err(e),
            }
        } else if str_eq(ident, "AC") {
            if n != 0 {
                return Err(arity_err(ident, 0, n));
            }
            Ok(ClientCommand::AO2CharacterList)
        } else if str_eq(ident, "RD") {
            if n != 0 {
                return Err(arity_err(ident, 0, n));
            }
            Ok(ClientCommand::AO2Ready)
        } else if str_eq(ident, "CC") {
            if n != 3 {
                return Err(arity_err(ident, 3, n));
            }
            let cl = match get_u32_arg(ident, args, 0) {
                Ok(v) => v,
                Err(e) => {
                    return Err(e);
                },
            };
            let ch = match get_u32_arg(ident, args, 1) {
                Ok(v) => v,
                Err(e) => {
                    return Err(e);
                },
            };
            Ok(ClientCommand::SelectCharacter(cl, ch, args[2].clone()))
        } else if str_eq(ident, "MS") {
            if n != 0 {
                return Err(arity_err(ident, 0, n));
            }
            Ok(ClientCommand::ICMessage)
        } else if str_eq(ident, "CT") {
            if n != 2 {
                return Err(arity_err(ident, 2, n));
            }
            Ok(ClientCommand::OOCMessage(args[0].clone(), args[1].clone()))
        } else if str_eq(ident, "MC") {
            if n != 2 {
                return Err(arity_err(ident, 2, n));
            }
            let s = match get_u32_arg(ident, args, 0) {
                Ok(v) => v,
                Err(e) => {
                    return Err(e);
                },
            };
            let a = match get_u32_arg(ident, args, 1) {
                Ok(v) => v,
                Err(e) => {
                    return Err(e);
                },
            };
            Ok(ClientCommand::PlaySong(s, a))
        } else if str_eq(ident, "RT") {
            if n != 1 {
                return Err(arity_err(ident, 1, n));
            }
            Ok(ClientCommand::WTCEButtons(args[0].clone()))
        } else if str_eq(ident, "SETCASE") {
            if n != 7 {
                return Err(arity_err(ident, 7, n));
            }
            match get_prefs(ident, args, 1) {
                Ok(p) => Ok(ClientCommand::SetCasePreferences(args[0].clone(), p)),
                Err(e) => Err(e),
            }
        } else if str_eq(ident, "CASEA") {
            if n != 7 {
                return Err(arity_err(ident, 7, n));
            }
            match get_prefs(ident, args, 1) {
                Ok(p) => Ok(ClientCommand::CaseAnnounce(args[0].clone(), p)),
                Err(e) => Err(e),
            }
        } else if str_eq(ident, "HP") {
            if n != 2 {
                return Err(arity_err(ident, 2, n));
            }
            let k = match get_u32_arg(ident, args, 0) {
                Ok(v) => v,
                Err(e) => {
                    return Err(e);
                },
            };
            let v = match get_u32_arg(ident, args, 1) {
                Ok(v) => v,
                Err(e) => {
                    return Err(e);
                },
            };
            Ok(ClientCommand::Penalties(k, v))
        } else if str_eq(ident, "PE") {
            if n != 3 {
                return Err(arity_err(ident, 3, n));
            }
            Ok(
                ClientCommand::AddEvidence(
                    EvidenceArgs {
                        name: args[0].clone(),
                        description: args[1].clone(),
                        image: args[2].clone(),
                    },
                ),
            )
        } else if str_eq(ident, "DE") {
            if n != 1 {
                return Err(arity_err(ident, 1, n));
            }
            match get_u32_arg(ident, args, 0) {
                Ok(i) => Ok(ClientCommand::DeleteEvidence(i)),
                Err(e) => Err(e),
            }
        } else if str_eq(ident, "EE") {
            if n != 4 {
                return Err(arity_err(ident, 4, n));
            }
            let i = match get_u32_arg(ident, args, 0) {
                Ok(v) => v,
                Err(e) => {
                    return Err(e);
                },
            };
            Ok(
                ClientCommand::EditEvidence(
                    i,
                    EvidenceArgs {
                        name: args[1].clone(),
                        description: args[2].clone(),
                        image: args[3].clone(),
                    },
                ),
            )
        } else if str_eq(ident, "ZZ") {
            if n == 0 {
                return Ok(ClientCommand::CallModButton(None));
            }
            if n != 1 {
                return Err(arity_err(ident, 1, n));
            }
            Ok(ClientCommand::CallModButton(Some(args[0].clone())))
        } else {
            Err(CommandError::UnknownCommand { ident: ident.to_owned() })
        }
    }
}

/// The six preference flags in wire order.
pub open spec fn prefs_fields(p: CasePreferences) -> Seq<Seq<char>> {
    seq![
        spec_bool_string(p.cm),
        spec_bool_string(p.def),
        spec_bool_string(p.pro),
        spec_bool_string(p.judge),
        spec_bool_string(p.jury),
        spec_bool_string(p.steno),
    ]
}

/// The inverse mapping: the identifier and the canonically formatted
/// argument fields of a command.
pub open spec fn command_to_wire(c: ClientCommandV) -> (Seq<char>, Seq<Seq<char>>) {
    match c {
        ClientCommandV::Handshake(h) => ("HI"@, seq![h]),
        ClientCommandV::ClientVersion(pv, sw, ver) => (
            "ID"@,
            seq![spec_u32_string(pv as int), sw, ver],
        ),
        ClientCommandV::KeepAlive => ("CH"@, Seq::empty()),
        ClientCommandV::AskListLengths => ("askchaa"@, Seq::empty()),
        ClientCommandV::AskListCharacters => ("askchar"@, Seq::empty()),
        ClientCommandV::CharacterList(p) => ("AN"@, seq![spec_u32_string(p as int)]),
        ClientCommandV::EvidenceList(p) => ("AE"@, seq![spec_u32_string(p as int)]),
        ClientCommandV::MusicList(p) => ("AM"@, seq![spec_u32_string(p as int)]),
        ClientCommandV::AO2CharacterList => ("AC"@, Seq::empty()),
        ClientCommandV::AO2MusicList => ("AM"@, Seq::empty()),
        ClientCommandV::AO2Ready => ("RD"@, Seq::empty()),
        ClientCommandV::SelectCharacter(cl, ch, h) => (
            "CC"@,
            seq![spec_u32_string(cl as int), spec_u32_string(ch as int), h],
        ),
        ClientCommandV::ICMessage => ("MS"@, Seq::empty()),
        ClientCommandV::OOCMessage(n, m) => ("CT"@, seq![n, m]),
        ClientCommandV::PlaySong(s, a) => (
            "MC"@,
            seq![spec_u32_string(s as int), spec_u32_string(a as int)],
        ),
        ClientCommandV::WTCEButtons(k) => ("RT"@, seq![k]),
        ClientCommandV::SetCasePreferences(cs, p) => ("SETCASE"@, seq![cs] + prefs_fields(p)),
        ClientCommandV::CaseAnnounce(cs, p) => ("CASEA"@, seq![cs] + prefs_fields(p)),
        ClientCommandV::Penalties(k, v) => (
            "HP"@,
            seq![spec_u32_string(k as int), spec_u32_string(v as int)],
        ),
        ClientCommandV::AddEvidence(e) => ("PE"@, seq![e.name, e.description, e.image]),
        ClientCommandV::DeleteEvidence(i) => ("DE"@, seq![spec_u32_string(i as int)]),
        ClientCommandV::EditEvidence(i, e) => (
            "EE"@,
            seq![spec_u32_string(i as int), e.name, e.description, e.image],
        ),
        ClientCommandV::CallModButton(r) => (
            "ZZ"@,
            match r {
                Some(reason) => seq![reason],
                None => Seq::empty(),
            },
        ),
    }
}

fn push_prefs(v: &mut Vec<String>, p: &CasePreferences)
    ensures
        final(v).deep_view() == old(v).deep_view() + prefs_fields(*p),
{
    v.push(bool_to_string(p.cm));
    v.push(bool_to_string(p.def));
    v.push(bool_to_string(p.pro));
    v.push(bool_to_string(p.judge));
    v.push(bool_to_string(p.jury));
    v.push(bool_to_string(p.steno));
    proof {
        assert(v.deep_view() =~= old(v).deep_view() + prefs_fields(*p));
    }
}

impl ClientCommand {
    /// The identifier and the canonically formatted argument fields of this
    /// command: booleans as `"1"`/`"0"`, integers in decimal.
    pub fn to_wire(&self) -> (r: (String, Vec<String>))
        ensures
            r.0@ == command_to_wire(self@).0,
            r.1.deep_view() == command_to_wire(self@).1,
    {
        let mut v: Vec<String> = Vec::new();
        proof {
            assert(v.deep_view() =~= Seq::<Seq<char>>::empty());
        }
        match self {
            ClientCommand::Handshake(h) => {
                v.push(h.clone());
                proof {
                    assert(v.deep_view() =~= seq![h@]);
                }
                (String::from_str("HI"), v)
            },
            ClientCommand::ClientVersion(pv, sw, ver) => {
                v.push(u32_to_string(*pv));
                v.push(sw.clone());
                v.push(ver.clone());
                proof {
                    assert(v.deep_view() =~= seq![spec_u32_string(*pv as int), sw@, ver@]);
                }
                (String::from_str("ID"), v)
            },
            ClientCommand::KeepAlive => (String::from_str("CH"), v),
            ClientCommand::AskListLengths => (String::from_str("askchaa"), v),
            ClientCommand::AskListCharacters => (String::from_str("askchar"), v),
            ClientCommand::CharacterList(p) => {
                v.push(u32_to_string(*p));
                proof {
                    assert(v.deep_view() =~= seq![spec_u32_string(*p as int)]);
                }
                (String::from_str("AN"), v)
            },
            ClientCommand::EvidenceList(p) => {
                v.push(u32_to_string(*p));
                proof {
                    assert(v.deep_view() =~= seq![spec_u32_string(*p as int)]);
                }
                (String::from_str("AE"), v)
            },
            ClientCommand::MusicList(p) => {
                v.push(u32_to_string(*p));
                proof {
                    assert(v.deep_view() =~= seq![spec_u32_string(*p as int)]);
                }
                (String::from_str("AM"), v)
            },
            ClientCommand::AO2CharacterList => (String::from_str("AC"), v),
            ClientCommand::AO2MusicList => (String::from_str("AM"), v),
            ClientCommand::AO2Ready => (String::from_str("RD"), v),
            ClientCommand::SelectCharacter(cl, ch, h) => {
                v.push(u32_to_string(*cl));
                v.push(u32_to_string(*ch));
                v.push(h.clone());
                proof {
                    assert(v.deep_view() =~= seq![
                        spec_u32_string(*cl as int),
                        spec_u32_string(*ch as int),
                        h@,
                    ]);
                }
                (String::from_str("CC"), v)
            },
            ClientCommand::ICMessage => (String::from_str("MS"), v),
            ClientCommand::OOCMessage(n, m) => {
                v.push(n.clone());
                v.push(m.clone());
                proof {
                    assert(v.deep_view() =~= seq![n@, m@]);
                }
                (String::from_str("CT"), v)
            },
            ClientCommand::PlaySong(s, a) => {
                v.push(u32_to_string(*s));
                v.push(u32_to_string(*a));
                proof {
                    assert(v.deep_view() =~= seq![
                        spec_u32_string(*s as int),
                        spec_u32_string(*a as int),
                    ]);
                }
                (String::from_str("MC"), v)
            },
            ClientCommand::WTCEButtons(k) => {
                v.push(k.clone());
                proof {
                    assert(v.deep_view() =~= seq![k@]);
                }
                (String::from_str("RT"), v)
            },
            ClientCommand::SetCasePreferences(cs, p) => {
                v.push(cs.clone());
                proof {
                    assert(v.deep_view() =~= seq![cs@]);
                }
                push_prefs(&mut v, p);
                (String::from_str("SETCASE"), v)
            },
            ClientCommand::CaseAnnounce(cs, p) => {
                v.push(cs.clone());
                proof {
                    assert(v.deep_view() =~= seq![cs@]);
                }
                push_prefs(&mut v, p);
                (String::from_str("CASEA"), v)
            },
            ClientCommand::Penalties(k, val) => {
                v.push(u32_to_string(*k));
                v.push(u32_to_string(*val));
                proof {
                    assert(v.deep_view() =~= seq![
                        spec_u32_string(*k as int),
                        spec_u32_string(*val as int),
                    ]);
                }
                (String::from_str("HP"), v)
            },
            ClientCommand::AddEvidence(e) => {
                v.push(e.name.clone());
                v.push(e.description.clone());
                v.push(e.image.clone());
                proof {
                    assert(v.deep_view() =~= seq![e.name@, e.description@, e.image@]);
                }
                (String::from_str("PE"), v)
            },
            ClientCommand::DeleteEvidence(i) => {
                v.push(u32_to_string(*i));
                proof {
                    assert(v.deep_view() =~= seq![spec_u32_string(*i as int)]);
                }
                (String::from_str("DE"), v)
            },
            ClientCommand::EditEvidence(i, e) => {
                v.push(u32_to_string(*i));
                v.push(e.name.clone());
                v.push(e.description.clone());
                v.push(e.image.clone());
                proof {
                    assert(v.deep_view() =~= seq![
                        spec_u32_string(*i as int),
                        e.name@,
                        e.description@,
                        e.image@,
                    ]);
                }
                (String::from_str("EE"), v)
            },
            ClientCommand::CallModButton(r) => {
                match r {
                    Some(reason) => {
                        v.push(reason.clone());
                        proof {
                            assert(v.deep_view() =~= seq![reason@]);
                        }
                    },
                    None => {},
                }
                (String::from_str("ZZ"), v)
            },
        }
    }
}

/// The wire identifier a server command is sent under.
pub open spec fn spec_server_ident(c: ServerCommandV) -> Seq<char> {
    match c {
        ServerCommandV::Handshake(_) => "HI"@,
    }
}

/// The ordered argument fields of a server command, where it has any.
pub open spec fn spec_server_args(c: ServerCommandV) -> Option<Seq<Seq<char>>> {
    match c {
        ServerCommandV::Handshake(s) => Some(seq![s]),
    }
}

impl ServerCommand {
    /// The ordered argument list of this command, where it has one.
    pub fn extract_args(&self) -> (r: Option<Vec<&str>>)
        ensures
            match r {
                Some(v) => spec_server_args(self@) == Some(v.deep_view()),
                None => spec_server_args(self@) is None,
            },
    {
        match self {
            ServerCommand::Handshake(s) => {
                let mut v: Vec<&str> = Vec::new();
                v.push(s.as_str());
                proof {
                    assert(v.deep_view() =~= seq![s@]);
                }
                Some(v)
            },
        }
    }

    /// The wire identifier of this command.
    pub fn ident(&self) -> (r: &str)
        ensures
            r@ == spec_server_ident(self@),
    {
        match self {
            ServerCommand::Handshake(_) => "HI",
        }
    }
}

/// Round trip from a command: writing a command's fields with
/// [`command_to_wire`] and reading them back with [`wire_to_command`]
/// reconstructs the same command, for every command.
pub proof fn lemma_wire_round_trip(c: ClientCommandV)
    ensures
        wire_to_command(command_to_wire(c).0, command_to_wire(c).1) == Ok::<
            ClientCommandV,
            CommandErrorV,
        >(c),
{
    lemma_ident_chars();
    match c {
        ClientCommandV::ClientVersion(pv, _, _) => {
            crate::text::lemma_parse_of_u32_string(pv);
        },
        ClientCommandV::CharacterList(p) => {
            crate::text::lemma_parse_of_u32_string(p);
        },
        ClientCommandV::EvidenceList(p) => {
            crate::text::lemma_parse_of_u32_string(p);
        },
        ClientCommandV::MusicList(p) => {
            crate::text::lemma_parse_of_u32_string(p);
        },
        ClientCommandV::SelectCharacter(cl, ch, _) => {
            crate::text::lemma_parse_of_u32_string(cl);
            crate::text::lemma_parse_of_u32_string(ch);
        },
        ClientCommandV::PlaySong(s, a) => {
            crate::text::lemma_parse_of_u32_string(s);
            crate::text::lemma_parse_of_u32_string(a);
        },
        ClientCommandV::SetCasePreferences(_, p) => {
            lemma_prefs_round_trip(p);
        },
        ClientCommandV::CaseAnnounce(_, p) => {
            lemma_prefs_round_trip(p);
        },
        ClientCommandV::Penalties(k, v) => {
            crate::text::lemma_parse_of_u32_string(k);
            crate::text::lemma_parse_of_u32_string(v);
        },
        ClientCommandV::DeleteEvidence(i) => {
            crate::text::lemma_parse_of_u32_string(i);
        },
        ClientCommandV::EditEvidence(i, _) => {
            crate::text::lemma_parse_of_u32_string(i);
        },
        _ => {},
    }
}

proof fn lemma_prefs_round_trip(p: CasePreferences)
    ensures
        forall|cs: Seq<char>|
            spec_prefs_at(#[trigger] (seq![cs] + prefs_fields(p)), 1) == Ok::<CasePreferences, int>(
                p,
            ),
{
    crate::text::lemma_parse_of_bool_string(true);
    crate::text::lemma_parse_of_bool_string(false);
    assert forall|cs: Seq<char>|
        spec_prefs_at(#[trigger] (seq![cs] + prefs_fields(p)), 1) == Ok::<CasePreferences, int>(
            p,
        ) by {
        let args = seq![cs] + prefs_fields(p);
        assert(args[1] == spec_bool_string(p.cm));
        assert(args[2] == spec_bool_string(p.def));
        assert(args[3] == spec_bool_string(p.pro));
        assert(args[4] == spec_bool_string(p.judge));
        assert(args[5] == spec_bool_string(p.jury));
        assert(args[6] == spec_bool_string(p.steno));
    }
}

/// Round trip from a frame: whenever a frame's fields construct a command,
/// the command writes back under the same identifier, and its canonically
/// formatted fields construct the same command again.
pub proof fn lemma_wire_fields_round_trip(id: Seq<char>, args: Seq<Seq<char>>, c: ClientCommandV)
    requires
        wire_to_command(id, args) == Ok::<ClientCommandV, CommandErrorV>(c),
    ensures
        command_to_wire(c).0 == id,
        wire_to_command(command_to_wire(c).0, command_to_wire(c).1) == Ok::<
            ClientCommandV,
            CommandErrorV,
        >(c),
{
    lemma_ident_chars();
    lemma_wire_round_trip(c);
}

/// For every schema entry, an argument count the entry does not accept is
/// rejected with an arity error naming the identifier and both counts,
/// whatever the arguments hold.
pub proof fn lemma_arity_mismatch(id: Seq<char>, args: Seq<Seq<char>>)
    requires
        known_ident(id),
        !arity_ok(id, args.len() as nat),
    ensures
        wire_to_command(id, args) == Err::<ClientCommandV, CommandErrorV>(
            CommandErrorV::ArityMismatch {
                ident: id,
                expected: primary_arity(id),
                got: args.len() as nat,
            },
        ),
{
}

} // verus!
